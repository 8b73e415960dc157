//! Character-level text helpers with exact specifications.

use vstd::prelude::*;

verus! {

/// Appends one character to a string (std `String::push`).
#[verifier::external_body]
pub(crate) fn push_char(s: &mut String, c: char)
    ensures
        final(s)@ == old(s)@.push(c),
{
    s.push(c);
}

/// The characters of `s`, in order.
pub fn chars_of(s: &str) -> (out: Vec<char>)
    ensures
        out@ == s@,
{
    let n = s.unicode_len();
    let mut out: Vec<char> = Vec::new();
    for i in 0..n
        invariant
            n == s@.len(),
            out@ == s@.subrange(0, i as int),
    {
        out.push(s.get_char(i));
        assert(out@ == s@.subrange(0, i + 1));
    }
    assert(s@.subrange(0, n as int) == s@);
    out
}

/// The string made of `cs`, in order.
pub fn string_of(cs: &Vec<char>) -> (out: String)
    ensures
        out@ == cs@,
{
    let mut out = String::new();
    for i in 0..cs.len()
        invariant
            out@ == cs@.subrange(0, i as int),
    {
        push_char(&mut out, cs[i]);
        assert(out@ == cs@.subrange(0, i + 1));
    }
    assert(cs@.subrange(0, cs@.len() as int) == cs@);
    out
}

/// Whether two texts are equal.
pub fn same_text(a: &str, b: &str) -> (r: bool)
    ensures
        r == (a@ == b@),
{
    let x = a.to_owned();
    let y = b.to_owned();
    x == y
}

pub open spec fn digit_char(d: nat) -> char {
    if d == 0 { '0' }
    else if d == 1 { '1' }
    else if d == 2 { '2' }
    else if d == 3 { '3' }
    else if d == 4 { '4' }
    else if d == 5 { '5' }
    else if d == 6 { '6' }
    else if d == 7 { '7' }
    else if d == 8 { '8' }
    else { '9' }
}

/// Decimal rendering of a natural number, most significant digit first.
pub open spec fn decimal(n: nat) -> Seq<char>
    decreases n,
{
    if n < 10 {
        seq![digit_char(n)]
    } else {
        decimal(n / 10).push(digit_char(n % 10))
    }
}

fn digit(d: u64) -> (c: char)
    requires
        d < 10,
    ensures
        c == digit_char(d as nat),
{
    if d == 0 { '0' }
    else if d == 1 { '1' }
    else if d == 2 { '2' }
    else if d == 3 { '3' }
    else if d == 4 { '4' }
    else if d == 5 { '5' }
    else if d == 6 { '6' }
    else if d == 7 { '7' }
    else if d == 8 { '8' }
    else { '9' }
}

/// Appends the decimal rendering of `n`.
pub fn push_decimal(out: &mut String, n: u64)
    ensures
        final(out)@ == old(out)@ + decimal(n as nat),
    decreases n,
{
    if n >= 10 {
        push_decimal(out, n / 10);
    }
    push_char(out, digit(n % 10));
    proof {
        if n >= 10 {
            assert(decimal(n as nat) == decimal((n / 10) as nat).push(digit_char((n % 10) as nat)));
        } else {
            assert(decimal(n as nat) == seq![digit_char(n as nat)]);
        }
    }
}

/// Decimal rendering of `n`.
pub fn decimal_string(n: u64) -> (s: String)
    ensures
        s@ == decimal(n as nat),
{
    let mut s = String::new();
    push_decimal(&mut s, n);
    s
}

/// `a` followed by `b`.
pub fn join2(a: &str, b: &str) -> (s: String)
    ensures
        s@ == a@ + b@,
{
    let mut s = a.to_owned();
    s.append(b);
    s
}

/// `a`, `b` and `c` in a row.
pub fn join3(a: &str, b: &str, c: &str) -> (s: String)
    ensures
        s@ == a@ + b@ + c@,
{
    let mut s = a.to_owned();
    s.append(b);
    s.append(c);
    s
}

/// Unicode `White_Space`: the characters `str::trim` removes.
pub open spec fn is_white_space(c: char) -> bool {
    ('\u{9}' <= c && c <= '\u{d}') || c == ' ' || c == '\u{85}' || c == '\u{a0}' || c == '\u{1680}'
        || ('\u{2000}' <= c && c <= '\u{200a}') || c == '\u{2028}' || c == '\u{2029}' || c
        == '\u{202f}' || c == '\u{205f}' || c == '\u{3000}'
}

pub open spec fn trim_start_seq(s: Seq<char>) -> Seq<char>
    decreases s.len(),
{
    if s.len() > 0 && is_white_space(s[0]) {
        trim_start_seq(s.drop_first())
    } else {
        s
    }
}

pub open spec fn trim_end_seq(s: Seq<char>) -> Seq<char>
    decreases s.len(),
{
    if s.len() > 0 && is_white_space(s.last()) {
        trim_end_seq(s.drop_last())
    } else {
        s
    }
}

/// `s` without leading and trailing white space.
pub open spec fn trimmed(s: Seq<char>) -> Seq<char> {
    trim_end_seq(trim_start_seq(s))
}

/// Whether `c` is Unicode white space.
pub fn is_white_space_char(c: char) -> (r: bool)
    ensures
        r == is_white_space(c),
{
    ('\u{9}' <= c && c <= '\u{d}') || c == ' ' || c == '\u{85}' || c == '\u{a0}' || c == '\u{1680}'
        || ('\u{2000}' <= c && c <= '\u{200a}') || c == '\u{2028}' || c == '\u{2029}' || c
        == '\u{202f}' || c == '\u{205f}' || c == '\u{3000}'
}

/// `s` without leading and trailing white space, as `str::trim` gives it.
pub fn trim_text(s: &str) -> (r: &str)
    ensures
        r@ == trimmed(s@),
{
    let cs = chars_of(s);
    let n = cs.len();
    let mut i: usize = 0;
    assert(s@.subrange(0, n as int) == s@);
    while i < n && is_white_space_char(cs[i])
        invariant
            cs@ == s@,
            n == s@.len(),
            i <= n,
            trim_start_seq(s@) == trim_start_seq(s@.subrange(i as int, n as int)),
        decreases n - i,
    {
        assert(s@.subrange(i as int, n as int).drop_first() == s@.subrange(i + 1, n as int));
        i = i + 1;
    }
    assert(trim_start_seq(s@.subrange(i as int, n as int)) == s@.subrange(i as int, n as int));
    let mut j: usize = n;
    while j > i && is_white_space_char(cs[j - 1])
        invariant
            cs@ == s@,
            n == s@.len(),
            i <= j <= n,
            trimmed(s@) == trim_end_seq(s@.subrange(i as int, j as int)),
        decreases j,
    {
        assert(s@.subrange(i as int, j as int).drop_last() == s@.subrange(i as int, j - 1));
        j = j - 1;
    }
    s.substring_char(i, j)
}

pub open spec fn ascii_lower_char(c: char) -> char {
    if 'A' <= c && c <= 'Z' {
        ((c as int) + 32) as char
    } else {
        c
    }
}

/// Whether `needle` occurs in `hay`.
pub open spec fn contains_seq(hay: Seq<char>, needle: Seq<char>) -> bool {
    exists|i: int| 0 <= i && i + needle.len() <= hay.len() && #[trigger] hay.subrange(i, i + needle.len()) == needle
}


/// `s` with ASCII letters lower-cased (`str::to_ascii_lowercase`).
pub fn ascii_lowercase(s: &str) -> (r: String)
    ensures
        r@ == s@.map_values(|c: char| ascii_lower_char(c)),
{
    let cs = chars_of(s);
    let mut r = String::new();
    for i in 0..cs.len()
        invariant
            cs@ == s@,
            r@ == s@.take(i as int).map_values(|c: char| ascii_lower_char(c)),
    {
        let c = cs[i];
        let l = if 'A' <= c && c <= 'Z' {
            if c == 'A' { 'a' } else if c == 'B' { 'b' } else if c == 'C' { 'c' } else if c == 'D' { 'd' }
            else if c == 'E' { 'e' } else if c == 'F' { 'f' } else if c == 'G' { 'g' } else if c == 'H' { 'h' }
            else if c == 'I' { 'i' } else if c == 'J' { 'j' } else if c == 'K' { 'k' } else if c == 'L' { 'l' }
            else if c == 'M' { 'm' } else if c == 'N' { 'n' } else if c == 'O' { 'o' } else if c == 'P' { 'p' }
            else if c == 'Q' { 'q' } else if c == 'R' { 'r' } else if c == 'S' { 's' } else if c == 'T' { 't' }
            else if c == 'U' { 'u' } else if c == 'V' { 'v' } else if c == 'W' { 'w' } else if c == 'X' { 'x' }
            else if c == 'Y' { 'y' } else { 'z' }
        } else {
            c
        };
        assert(l == ascii_lower_char(c));
        push_char(&mut r, l);
        assert(s@.take(i + 1) == s@.take(i as int).push(c));
        assert(s@.take(i + 1).map_values(|c: char| ascii_lower_char(c)) =~= s@.take(i as int).map_values(
            |c: char| ascii_lower_char(c),
        ).push(ascii_lower_char(c)));
    }
    assert(s@.take(s@.len() as int) == s@);
    r
}

/// Whether `needle` occurs in `hay` (`str::contains`).
pub fn text_contains(hay: &str, needle: &str) -> (r: bool)
    ensures
        r == contains_seq(hay@, needle@),
{
    let h = chars_of(hay);
    let n = chars_of(needle);
    if n.len() == 0 {
        assert(hay@.subrange(0int, 0int + needle@.len()) =~= needle@);
        return true;
    }
    if n.len() > h.len() {
        assert(!contains_seq(hay@, needle@));
        return false;
    }
    let last = h.len() - n.len();
    let mut i: usize = 0;
    while i <= last
        invariant
            h@ == hay@,
            n@ == needle@,
            last == h.len() - n.len(),
            n.len() > 0,
            forall|k: int| 0 <= k < i && k <= last ==> #[trigger] hay@.subrange(k, k + needle@.len()) != needle@,
        decreases last + 1 - i,
    {
        let mut j: usize = 0;
        while j < n.len() && h[i + j] == n[j]
            invariant
                h@ == hay@,
                n@ == needle@,
                i <= last,
                last == h.len() - n.len(),
                n.len() > 0,
                j <= n.len(),
                forall|t: int| 0 <= t < j ==> h@[i + t] == n@[t],
            decreases n@.len() - j,
        {
            j = j + 1;
        }
        if j == n.len() {
            assert(hay@.subrange(i as int, i + needle@.len()) =~= needle@);
            return true;
        }
        assert(hay@.subrange(i as int, i + needle@.len())[j as int] != needle@[j as int]);
        i = i + 1;
    }
    assert(!contains_seq(hay@, needle@)) by {
        if contains_seq(hay@, needle@) {
            let k = choose|k: int|
                0 <= k && k + needle@.len() <= hay@.len() && #[trigger] hay@.subrange(k, k + needle@.len())
                    == needle@;
            assert(hay@.subrange(k, k + needle@.len()) == needle@);
        }
    }
    false
}

/// Whether `needle` occurs in `hay` at position `i`.
pub open spec fn match_at(hay: Seq<char>, needle: Seq<char>, i: int) -> bool {
    0 <= i && i + needle.len() <= hay.len() && hay.subrange(i, i + needle.len()) == needle
}

/// The first position of `needle` in `hay`, if it occurs (`str::find`, in
/// characters).
pub open spec fn first_match(hay: Seq<char>, needle: Seq<char>) -> Option<int> {
    if exists|i: int| match_at(hay, needle, i) {
        Some(choose|i: int| match_at(hay, needle, i) && forall|j: int| 0 <= j < i ==> !match_at(hay, needle, j))
    } else {
        None
    }
}

proof fn lemma_first_match_is(hay: Seq<char>, needle: Seq<char>, i: int)
    requires
        match_at(hay, needle, i),
        forall|j: int| 0 <= j < i ==> !match_at(hay, needle, j),
    ensures
        first_match(hay, needle) == Some(i),
{
    let w = choose|w: int| match_at(hay, needle, w) && forall|j: int| 0 <= j < w ==> !match_at(hay, needle, j);
    assert(w == i) by {
        if w < i {
            assert(!match_at(hay, needle, w));
        } else if w > i {
            assert(!match_at(hay, needle, i));
        }
    }
}

/// What the first position of `needle` in `hay` is: a match, with no match
/// before it.
pub proof fn lemma_first_match_facts(hay: Seq<char>, needle: Seq<char>)
    ensures
        match first_match(hay, needle) {
            Some(i) => match_at(hay, needle, i) && forall|j: int| 0 <= j < i ==> !match_at(hay, needle, j),
            None => forall|j: int| !match_at(hay, needle, j),
        },
{
    if exists|i: int| match_at(hay, needle, i) {
        let w = choose|i: int| match_at(hay, needle, i);
        lemma_least_match(hay, needle, w);
    }
}

proof fn lemma_least_match(hay: Seq<char>, needle: Seq<char>, w: int)
    requires
        match_at(hay, needle, w),
    ensures
        exists|i: int| match_at(hay, needle, i) && forall|j: int| 0 <= j < i ==> !match_at(hay, needle, j),
    decreases w,
{
    if exists|j: int| 0 <= j < w && match_at(hay, needle, j) {
        let j = choose|j: int| 0 <= j < w && match_at(hay, needle, j);
        lemma_least_match(hay, needle, j);
    } else {
        assert(forall|j: int| 0 <= j < w ==> !match_at(hay, needle, j));
    }
}

/// The first position of `needle` in `hay`.
pub fn find_chars(hay: &Vec<char>, needle: &Vec<char>) -> (r: Option<usize>)
    ensures
        r == (match first_match(hay@, needle@) {
            Some(i) => Some(i as usize),
            None => None::<usize>,
        }),
{
    if needle.len() > hay.len() {
        return None;
    }
    if needle.len() == 0 {
        assert(hay@.subrange(0, 0) =~= needle@);
        proof {
            lemma_first_match_is(hay@, needle@, 0);
        }
        return Some(0);
    }
    let last = hay.len() - needle.len();
    let mut i: usize = 0;
    while i <= last
        invariant
            last == hay.len() - needle.len(),
            needle@.len() > 0,
            forall|k: int| 0 <= k < i ==> !match_at(hay@, needle@, k),
        decreases last + 1 - i,
    {
        let mut j: usize = 0;
        while j < needle.len() && hay[i + j] == needle[j]
            invariant
                i <= last,
                last == hay.len() - needle.len(),
                i + needle.len() <= hay.len(),
                j <= needle@.len(),
                forall|t: int| 0 <= t < j ==> hay@[i + t] == needle@[t],
            decreases needle@.len() - j,
        {
            j = j + 1;
        }
        if j == needle.len() {
            assert(hay@.subrange(i as int, i + needle@.len()) =~= needle@);
            proof {
                lemma_first_match_is(hay@, needle@, i as int);
            }
            return Some(i);
        }
        assert(hay@.subrange(i as int, i + needle@.len())[j as int] != needle@[j as int]);
        i = i + 1;
    }
    assert forall|k: int| !match_at(hay@, needle@, k) by {
        if k > last {
            assert(k + needle@.len() > hay@.len());
        }
    }
    None
}

/// How many bytes UTF-8 takes for `c`.
pub open spec fn utf8_len(c: char) -> nat {
    if (c as u32) < 0x80 {
        1
    } else if (c as u32) < 0x800 {
        2
    } else if (c as u32) < 0x10000 {
        3
    } else {
        4
    }
}

/// How many bytes UTF-8 takes for `s`.
pub open spec fn utf8_width(s: Seq<char>) -> nat
    decreases s.len(),
{
    if s.len() == 0 {
        0
    } else {
        utf8_width(s.drop_last()) + utf8_len(s.last())
    }
}

/// A prefix takes no more bytes than the whole.
pub proof fn lemma_utf8_width_prefix(s: Seq<char>, i: int)
    requires
        0 <= i <= s.len(),
    ensures
        utf8_width(s.take(i)) <= utf8_width(s),
    decreases s.len(),
{
    if i < s.len() {
        assert(s.take(i) == s.drop_last().take(i));
        lemma_utf8_width_prefix(s.drop_last(), i);
    } else {
        assert(s.take(i) == s);
    }
}

/// Lower-casing ASCII letters keeps the UTF-8 width.
pub proof fn lemma_utf8_width_lower(s: Seq<char>)
    ensures
        utf8_width(s.map_values(|c: char| ascii_lower_char(c))) == utf8_width(s),
    decreases s.len(),
{
    if s.len() > 0 {
        assert(s.map_values(|c: char| ascii_lower_char(c)).drop_last() == s.drop_last().map_values(
            |c: char| ascii_lower_char(c),
        ));
        lemma_utf8_width_lower(s.drop_last());
    }
}

/// Splitting a sequence splits its width.
pub proof fn lemma_utf8_width_concat(a: Seq<char>, b: Seq<char>)
    ensures
        utf8_width(a + b) == utf8_width(a) + utf8_width(b),
    decreases b.len(),
{
    if b.len() > 0 {
        assert((a + b).drop_last() == a + b.drop_last());
        lemma_utf8_width_concat(a, b.drop_last());
    } else {
        assert(a + b == a);
    }
}

fn utf8_len_of(c: char) -> (n: usize)
    ensures
        n == utf8_len(c),
{
    let v = c as u32;
    if v < 0x80 {
        1
    } else if v < 0x800 {
        2
    } else if v < 0x10000 {
        3
    } else {
        4
    }
}

/// The UTF-8 width of the first `end` characters of `cs`.
pub fn utf8_width_upto(cs: &Vec<char>, end: usize) -> (w: usize)
    requires
        end <= cs@.len(),
        utf8_width(cs@) <= usize::MAX,
    ensures
        w == utf8_width(cs@.take(end as int)),
{
    let mut w: usize = 0;
    for i in 0..end
        invariant
            end <= cs@.len(),
            utf8_width(cs@) <= usize::MAX,
            w == utf8_width(cs@.take(i as int)),
    {
        proof {
            lemma_utf8_width_prefix(cs@, i + 1);
            assert(cs@.take(i + 1).drop_last() == cs@.take(i as int));
        }
        w = w + utf8_len_of(cs[i]);
    }
    w
}

/// `s` with ASCII letters lower-cased.
pub open spec fn ascii_lowered(s: Seq<char>) -> Seq<char> {
    s.map_values(|c: char| ascii_lower_char(c))
}

/// The byte positions in `haystack` that the first occurrence of `query`
/// covers, ignoring ASCII case; none for an empty query or no occurrence.
pub open spec fn match_positions(haystack: Seq<char>, query: Seq<char>) -> Seq<int> {
    let h = ascii_lowered(haystack);
    let q = ascii_lowered(query);
    if query.len() == 0 {
        Seq::empty()
    } else {
        match first_match(h, q) {
            Some(i) => Seq::new(utf8_width(q), |k: int| utf8_width(h.take(i)) + k),
            None => Seq::empty(),
        }
    }
}

pub open spec fn positions_view(ps: Seq<usize>) -> Seq<int> {
    ps.map_values(|p: usize| p as int)
}

/// The byte positions of `haystack` that the first occurrence of `query`
/// covers, ignoring ASCII case.
pub fn substring_match_positions(haystack: &str, query: &str) -> (r: Vec<usize>)
    requires
        utf8_width(haystack@) <= usize::MAX,
    ensures
        positions_view(r@) == match_positions(haystack@, query@),
{
    let mut r: Vec<usize> = Vec::new();
    let qc0 = chars_of(query);
    if qc0.len() == 0 {
        assert(positions_view(r@) =~= Seq::<int>::empty());
        return r;
    }
    let lh = ascii_lowercase(haystack);
    let lq = ascii_lowercase(query);
    let hc = chars_of(lh.as_str());
    let qc = chars_of(lq.as_str());
    let ghost h = ascii_lowered(haystack@);
    let ghost q = ascii_lowered(query@);
    assert(hc@ == h && qc@ == q);
    match find_chars(&hc, &qc) {
        None => {
            assert(positions_view(r@) =~= Seq::<int>::empty());
            r
        },
        Some(i) => {
            let hn = hc.len();
            proof {
                lemma_first_match_facts(h, q);
                let j = first_match(h, q)->0;
                assert(match_at(h, q, j));
                assert(j <= hc@.len() && hc@.len() == hn);
                assert(j == i);
                assert(match_at(h, q, i as int));
                lemma_utf8_width_lower(haystack@);
                assert(h.take(i + q.len()) =~= h.take(i as int) + q) by {
                    assert(h.subrange(i as int, i + q.len()) == q);
                }
                lemma_utf8_width_concat(h.take(i as int), q);
                lemma_utf8_width_prefix(h, i + q.len());
                assert(qc@.take(qc@.len() as int) == qc@);
            }
            let start = utf8_width_upto(&hc, i);
            let width = utf8_width_upto(&qc, qc.len());
            let end = start + width;
            let mut p = start;
            while p < end
                invariant
                    start <= p <= end,
                    end == start + width,
                    positions_view(r@) == Seq::new((p - start) as nat, |k: int| start + k),
                decreases end - p,
            {
                let ghost before = r@;
                r.push(p);
                assert(positions_view(r@) == positions_view(before).push(p as int));
                assert(positions_view(r@) =~= Seq::new((p + 1 - start) as nat, |k: int| start + k));
                p = p + 1;
            }
            assert(positions_view(r@) =~= match_positions(haystack@, query@));
            r
        },
    }
}

} // verus!
