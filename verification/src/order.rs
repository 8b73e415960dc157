//! Orders used to sort registry output: code-point lexicographic order on
//! text, and a stable insertion sort over any keyed item.

use vstd::prelude::*;
use vstd::multiset::Multiset;

verus! {

/// Lexicographic order on character sequences (code-point order, a prefix
/// comes first), which is the order of `str` comparison in Rust.
pub open spec fn lex_le(a: Seq<char>, b: Seq<char>) -> bool
    decreases a.len(),
{
    if a.len() == 0 {
        true
    } else if b.len() == 0 {
        false
    } else if a[0] != b[0] {
        (a[0] as int) < (b[0] as int)
    } else {
        lex_le(a.drop_first(), b.drop_first())
    }
}

/// Any two texts are ordered one way or the other.
pub proof fn lemma_lex_total(a: Seq<char>, b: Seq<char>)
    ensures
        lex_le(a, b) || lex_le(b, a),
    decreases a.len(),
{
    if a.len() > 0 && b.len() > 0 {
        if a[0] == b[0] {
            lemma_lex_total(a.drop_first(), b.drop_first());
        } else {
            assert((a[0] as int) != (b[0] as int));
        }
    }
}

/// The text order is transitive.
pub proof fn lemma_lex_trans(a: Seq<char>, b: Seq<char>, c: Seq<char>)
    requires
        lex_le(a, b),
        lex_le(b, c),
    ensures
        lex_le(a, c),
    decreases a.len(),
{
    if a.len() > 0 && b.len() > 0 && c.len() > 0 && a[0] == b[0] && b[0] == c[0] {
        lemma_lex_trans(a.drop_first(), b.drop_first(), c.drop_first());
    }
}

/// Texts ordered both ways are equal.
pub proof fn lemma_lex_antisym(a: Seq<char>, b: Seq<char>)
    requires
        lex_le(a, b),
        lex_le(b, a),
    ensures
        a == b,
    decreases a.len(),
{
    if a.len() > 0 && b.len() > 0 {
        lemma_lex_antisym(a.drop_first(), b.drop_first());
        assert(a == seq![a[0]] + a.drop_first());
        assert(b == seq![b[0]] + b.drop_first());
    } else {
        assert(a.len() == 0 && b.len() == 0);
        assert(a =~= b);
    }
}

/// Every text is ordered before itself.
pub proof fn lemma_lex_refl(a: Seq<char>)
    ensures
        lex_le(a, a),
{
    lemma_lex_total(a, a);
}

/// Whether `a` comes no later than `b` in lexicographic order.
pub fn text_le(a: &str, b: &str) -> (r: bool)
    ensures
        r == lex_le(a@, b@),
{
    let x = crate::text::chars_of(a);
    let y = crate::text::chars_of(b);
    let mut i: usize = 0;
    assert(a@.skip(0) == a@);
    assert(b@.skip(0) == b@);
    while i < x.len() && i < y.len() && x[i] == y[i]
        invariant
            x@ == a@,
            y@ == b@,
            i <= x.len(),
            i <= y.len(),
            lex_le(a@, b@) == lex_le(a@.skip(i as int), b@.skip(i as int)),
        decreases x.len() - i,
    {
        assert(a@.skip(i as int).drop_first() == a@.skip(i + 1));
        assert(b@.skip(i as int).drop_first() == b@.skip(i + 1));
        i = i + 1;
    }
    if i == x.len() {
        true
    } else if i == y.len() {
        false
    } else {
        assert(a@.skip(i as int)[0] == x@[i as int]);
        assert(b@.skip(i as int)[0] == y@[i as int]);
        x[i] < y[i]
    }
}

/// Items that carry a total preorder, compared by a key.
pub trait SortKey: Sized {
    spec fn key_le(&self, other: &Self) -> bool;

    proof fn lemma_key_total(a: &Self, b: &Self)
        ensures
            a.key_le(b) || b.key_le(a),
    ;

    proof fn lemma_key_trans(a: &Self, b: &Self, c: &Self)
        requires
            a.key_le(b),
            b.key_le(c),
        ensures
            a.key_le(c),
    ;

    fn key_le_exec(&self, other: &Self) -> (r: bool)
        ensures
            r == self.key_le(other),
    ;
}

pub open spec fn sorted_by_key<T: SortKey>(s: Seq<T>) -> bool {
    forall|i: int, j: int| 0 <= i < j < s.len() ==> s[i].key_le(&s[j])
}

/// Whether an item has the same key as `y`.
pub open spec fn same_key<T: SortKey>(y: T) -> spec_fn(T) -> bool {
    |z: T| y.key_le(&z) && z.key_le(&y)
}

/// Sorts `v` by key, stably: the result holds the same items, in key order,
/// and items with equal keys keep their order.
pub fn sort_by_key<T: SortKey>(v: Vec<T>) -> (out: Vec<T>)
    ensures
        out@.to_multiset() == v@.to_multiset(),
        sorted_by_key(out@),
        forall|y: T| #[trigger] out@.filter(same_key(y)) == v@.filter(same_key(y)),
{
    broadcast use vstd::seq_lib::group_to_multiset_ensures, vstd::multiset::group_multiset_axioms;

    let mut rest = v;
    let mut out: Vec<T> = Vec::new();
    let ghost input = rest@;
    proof {
        assert(out@.to_multiset() =~= Multiset::empty());
        assert(out@.to_multiset().add(rest@.to_multiset()) =~= input.to_multiset());
        assert forall|y: T| #[trigger] out@.filter(same_key(y)) + rest@.filter(same_key(y)) == input.filter(
            same_key(y),
        ) by {
            assert(out@.filter(same_key(y)) =~= Seq::<T>::empty());
        }
    }
    while rest.len() > 0
        invariant
            out@.to_multiset().add(rest@.to_multiset()) == input.to_multiset(),
            sorted_by_key(out@),
            forall|y: T| #[trigger] out@.filter(same_key(y)) + rest@.filter(same_key(y)) == input.filter(
                same_key(y),
            ),
        decreases rest.len(),
    {
        let ghost before_rest = rest@;
        let x = rest.remove(0);
        proof {
            broadcast use vstd::seq_lib::to_multiset_remove;
            assert(before_rest.remove(0) == rest@);
            assert(before_rest.remove(0).to_multiset() == before_rest.to_multiset().remove(x));
        }
        let mut p: usize = 0;
        while p < out.len() && out[p].key_le_exec(&x)
            invariant
                p <= out.len(),
                forall|i: int| 0 <= i < p ==> out@[i].key_le(&x),
            decreases out.len() - p,
        {
            p = p + 1;
        }
        let ghost before_out = out@;
        proof {
            assert(p < out.len() ==> !out@[p as int].key_le(&x));
            assert forall|j: int| p <= j < out@.len() implies !(#[trigger] out@[j]).key_le(&x) by {
                if j > p && out@[j].key_le(&x) {
                    T::lemma_key_trans(&out@[p as int], &out@[j], &x);
                }
            }
            if p < out.len() {
                T::lemma_key_total(&out@[p as int], &x);
                assert forall|j: int| p <= j < out@.len() implies x.key_le(&out@[j]) by {
                    if j > p {
                        T::lemma_key_trans(&x, &out@[p as int], &out@[j]);
                    }
                }
            }
        }
        out.insert(p, x);
        proof {
            broadcast use vstd::seq_lib::to_multiset_insert;
            assert(out@ == before_out.insert(p as int, x));
            assert(out@.to_multiset() == before_out.to_multiset().insert(x));
            assert forall|i: int, j: int| 0 <= i < j < out@.len() implies out@[i].key_le(&out@[j]) by {
                if j < p {
                    assert(out@[i] == before_out[i] && out@[j] == before_out[j]);
                } else if j == p {
                    assert(out@[i] == before_out[i]);
                } else if i == p {
                    assert(out@[j] == before_out[j - 1]);
                } else if i < p {
                    assert(out@[i] == before_out[i]);
                    assert(out@[j] == before_out[j - 1]);
                    T::lemma_key_trans(&before_out[i], &x, &before_out[j - 1]);
                } else {
                    assert(out@[i] == before_out[i - 1]);
                    assert(out@[j] == before_out[j - 1]);
                }
            }
            assert(before_rest[0] == x);
            assert(before_rest.contains(x));
            vstd::seq_lib::to_multiset_contains(before_rest, x);
            assert(before_rest.to_multiset().count(x) > 0);
            assert(rest@.to_multiset().insert(x) =~= before_rest.to_multiset());
            assert(out@.to_multiset().add(rest@.to_multiset()) =~= before_out.to_multiset().add(
                before_rest.to_multiset(),
            ));
            assert(out@.to_multiset().add(rest@.to_multiset()) =~= input.to_multiset());
            let a = before_out.take(p as int);
            let b = before_out.skip(p as int);
            assert(before_out == a + b);
            assert(out@ == a + seq![x] + b);
            assert(before_rest == seq![x] + rest@);
            assert forall|y: T| #[trigger] out@.filter(same_key(y)) + rest@.filter(same_key(y))
                == input.filter(same_key(y)) by {
                let f = same_key(y);
                assert(before_out.filter(f) + before_rest.filter(f) == input.filter(f));
                Seq::filter_distributes_over_add(a, b, f);
                Seq::filter_distributes_over_add(a + seq![x], b, f);
                Seq::filter_distributes_over_add(a, seq![x], f);
                Seq::filter_distributes_over_add(seq![x], rest@, f);
                Seq::<T>::empty().lemma_filter_push(x, f);
                assert(Seq::<T>::empty().push(x) == seq![x]);
                assert(Seq::<T>::empty().filter(f) =~= Seq::<T>::empty());
                if f(x) {
                    assert forall|j: int| 0 <= j < b.len() implies !f(b[j]) by {
                        assert(b[j] == before_out[p + j]);
                        if f(b[j]) {
                            T::lemma_key_trans(&b[j], &y, &x);
                        }
                    }
                    b.lemma_all_neg_filter_empty(f);
                    assert(b.filter(f) =~= Seq::<T>::empty());
                    assert(out@.filter(f) + rest@.filter(f) =~= before_out.filter(f) + before_rest.filter(f));
                } else {
                    assert(out@.filter(f) + rest@.filter(f) =~= before_out.filter(f) + before_rest.filter(f));
                }
            }
        }
    }
    proof {
        assert(rest@ =~= Seq::<T>::empty());
        assert forall|y: T| #[trigger] out@.filter(same_key(y)) == v@.filter(same_key(y)) by {
            assert(rest@.filter(same_key(y)) =~= Seq::<T>::empty());
            assert(out@.filter(same_key(y)) + rest@.filter(same_key(y)) =~= out@.filter(same_key(y)));
        }
        assert(rest@.to_multiset() =~= Multiset::empty());
        assert(out@.to_multiset().add(Multiset::empty()) =~= out@.to_multiset());
    }
    out
}

} // verus!

verus! {

/// Mapping both sides of a permutation gives a permutation.
pub proof fn lemma_map_values_multiset<A, B>(a: Seq<A>, b: Seq<A>, f: spec_fn(A) -> B)
    requires
        a.to_multiset() == b.to_multiset(),
    ensures
        a.map_values(f).to_multiset() == b.map_values(f).to_multiset(),
    decreases a.len(),
{
    broadcast use vstd::seq_lib::group_to_multiset_ensures, vstd::multiset::group_multiset_axioms;

    if a.len() == 0 {
        assert(a.to_multiset().len() == 0);
        assert(b.to_multiset().len() == b.len());
        assert(b.len() == 0);
        assert(a.map_values(f) =~= Seq::<B>::empty());
        assert(b.map_values(f) =~= Seq::<B>::empty());
    } else {
        let x = a.last();
        let a2 = a.drop_last();
        assert(a == a2.push(x));
        assert(a.to_multiset() == a2.to_multiset().insert(x));
        assert(b.to_multiset().count(x) > 0);
        assert(b.contains(x));
        let k = choose|k: int| 0 <= k < b.len() && b[k] == x;
        let b2 = b.remove(k);
        assert(b2.to_multiset() == b.to_multiset().remove(x));
        assert(a2.to_multiset() =~= b2.to_multiset());
        lemma_map_values_multiset(a2, b2, f);
        assert(a.map_values(f) =~= a2.map_values(f).push(f(x)));
        assert(b.map_values(f) =~= b2.map_values(f).insert(k, f(x)));
        vstd::seq_lib::to_multiset_insert(b2.map_values(f), k, f(x));
    }
}

} // verus!

verus! {

/// Filters by two predicates that agree on every item give the same items.
pub proof fn lemma_filter_congruent<A>(s: Seq<A>, p: spec_fn(A) -> bool, q: spec_fn(A) -> bool)
    requires
        forall|i: int| 0 <= i < s.len() ==> p(#[trigger] s[i]) == q(s[i]),
    ensures
        s.filter(p) == s.filter(q),
    decreases s.len(),
{
    if s.len() == 0 {
        assert(s.filter(p) =~= Seq::<A>::empty());
        assert(s.filter(q) =~= Seq::<A>::empty());
    } else {
        let t = s.drop_last();
        assert(forall|i: int| 0 <= i < t.len() ==> t[i] == s[i]);
        lemma_filter_congruent(t, p, q);
        assert(t.push(s.last()) == s);
        t.lemma_filter_push(s.last(), p);
        t.lemma_filter_push(s.last(), q);
    }
}

/// Mapping then filtering by `p` is filtering by `q` then mapping, when `q`
/// holds of an item exactly when `p` holds of its image.
pub proof fn lemma_map_filter<A, B>(s: Seq<A>, f: spec_fn(A) -> B, p: spec_fn(B) -> bool, q: spec_fn(A) -> bool)
    requires
        forall|i: int| 0 <= i < s.len() ==> q(#[trigger] s[i]) == p(f(s[i])),
    ensures
        s.map_values(f).filter(p) == s.filter(q).map_values(f),
    decreases s.len(),
{
    if s.len() == 0 {
        assert(s.map_values(f) =~= Seq::<B>::empty());
        assert(s.map_values(f).filter(p) =~= Seq::<B>::empty());
        assert(s.filter(q) =~= Seq::<A>::empty());
        assert(s.filter(q).map_values(f) =~= Seq::<B>::empty());
    } else {
        let t = s.drop_last();
        let x = s.last();
        assert(forall|i: int| 0 <= i < t.len() ==> t[i] == s[i]);
        lemma_map_filter(t, f, p, q);
        assert(t.push(x) == s);
        assert(s.map_values(f) == t.map_values(f).push(f(x)));
        t.map_values(f).lemma_filter_push(f(x), p);
        t.lemma_filter_push(x, q);
        if q(x) {
            assert(t.filter(q).push(x).map_values(f) =~= t.filter(q).map_values(f).push(f(x)));
        }
    }
}

} // verus!
