//! Named context menu hooks: extensions add entries to the item tab menu and
//! to a panel's overflow menu by registering a hook under a name. A name
//! holds one hook; the hooks run in the order they were last registered.

use vstd::prelude::*;
use crate::text::same_text;

verus! {

/// A hook and the name it was registered under.
#[derive(Debug)]
pub struct RegisteredHook<H> {
    pub id: String,
    pub handler: H,
}

pub open spec fn hook_ids<H>(hooks: Seq<RegisteredHook<H>>) -> Seq<Seq<char>> {
    hooks.map_values(|h: RegisteredHook<H>| h.id@)
}

pub open spec fn named_other<H>(id: Seq<char>) -> spec_fn(RegisteredHook<H>) -> bool {
    |h: RegisteredHook<H>| h.id@ != id
}

/// The hooks without those named `id`, in order.
fn without_named<H>(hooks: Vec<RegisteredHook<H>>, id: &str) -> (r: Vec<RegisteredHook<H>>)
    ensures
        r@ == hooks@.filter(named_other(id@)),
{
    let ghost all = hooks@;
    let n = hooks.len();
    let mut rest = hooks;
    let mut kept: Vec<RegisteredHook<H>> = Vec::new();
    let mut k: usize = 0;
    while rest.len() > 0
        invariant
            all.len() == n,
            k + rest@.len() == n,
            rest@ == all.skip(k as int),
            kept@ == all.take(k as int).filter(named_other(id@)),
        decreases rest@.len(),
    {
        let h = rest.remove(0);
        proof {
            assert(h == all[k as int]);
            assert(all.take(k + 1) == all.take(k as int).push(h));
            all.take(k as int).lemma_filter_push(h, named_other(id@));
            assert(rest@ == all.skip(k + 1));
        }
        if !same_text(h.id.as_str(), id) {
            kept.push(h);
        }
        k = k + 1;
    }
    assert(all.take(n as int) == all);
    kept
}

/// Hooks that add entries to the context menu of an item's tab.
#[derive(Debug)]
pub struct ItemTabContextMenuHooks<H> {
    pub hooks: Vec<RegisteredHook<H>>,
}

/// Hooks that add entries to a panel's overflow menu.
#[derive(Debug)]
pub struct PanelOverflowContextMenuHooks<H> {
    pub hooks: Vec<RegisteredHook<H>>,
}

impl<H> ItemTabContextMenuHooks<H> {
    /// No hooks.
    pub fn new() -> (r: Self)
        ensures
            r.hooks@.len() == 0,
    {
        ItemTabContextMenuHooks { hooks: Vec::new() }
    }

    /// Registers `handler` under `id`, replacing any hook of that name; it
    /// runs after the others.
    pub fn set_named(&mut self, id: &str, handler: H)
        ensures
            final(self).hooks@.len() == old(self).hooks@.filter(named_other(id@)).len() + 1,
            final(self).hooks@.drop_last() == old(self).hooks@.filter(named_other(id@)),
            final(self).hooks@.last().id@ == id@,
            final(self).hooks@.last().handler == handler,
    {
        let mut current: Vec<RegisteredHook<H>> = Vec::new();
        std::mem::swap(&mut current, &mut self.hooks);
        let mut kept = without_named(current, id);
        kept.push(RegisteredHook { id: id.to_owned(), handler });
        self.hooks = kept;
    }

    /// Removes the hook named `id`, if any.
    pub fn clear_named(&mut self, id: &str)
        ensures
            final(self).hooks@ == old(self).hooks@.filter(named_other(id@)),
    {
        let mut current: Vec<RegisteredHook<H>> = Vec::new();
        std::mem::swap(&mut current, &mut self.hooks);
        self.hooks = without_named(current, id);
    }
}

impl<H> PanelOverflowContextMenuHooks<H> {
    /// No hooks.
    pub fn new() -> (r: Self)
        ensures
            r.hooks@.len() == 0,
    {
        PanelOverflowContextMenuHooks { hooks: Vec::new() }
    }

    /// Registers `handler` under `id`, replacing any hook of that name; it
    /// runs after the others.
    pub fn set_named(&mut self, id: &str, handler: H)
        ensures
            final(self).hooks@.len() == old(self).hooks@.filter(named_other(id@)).len() + 1,
            final(self).hooks@.drop_last() == old(self).hooks@.filter(named_other(id@)),
            final(self).hooks@.last().id@ == id@,
            final(self).hooks@.last().handler == handler,
    {
        let mut current: Vec<RegisteredHook<H>> = Vec::new();
        std::mem::swap(&mut current, &mut self.hooks);
        let mut kept = without_named(current, id);
        kept.push(RegisteredHook { id: id.to_owned(), handler });
        self.hooks = kept;
    }

    /// Removes the hook named `id`, if any.
    pub fn clear_named(&mut self, id: &str)
        ensures
            final(self).hooks@ == old(self).hooks@.filter(named_other(id@)),
    {
        let mut current: Vec<RegisteredHook<H>> = Vec::new();
        std::mem::swap(&mut current, &mut self.hooks);
        self.hooks = without_named(current, id);
    }
}

/// No two hooks share a name.
pub open spec fn names_distinct<H>(hooks: Seq<RegisteredHook<H>>) -> bool {
    forall|i: int, j: int| 0 <= i < j < hooks.len() ==> hooks[i].id@ != hooks[j].id@
}

proof fn lemma_filter_keeps_names_distinct<H>(s: Seq<RegisteredHook<H>>, p: spec_fn(RegisteredHook<H>) -> bool)
    requires
        names_distinct(s),
    ensures
        names_distinct(s.filter(p)),
    decreases s.len(),
{
    broadcast use vstd::seq_lib::group_filter_ensures;

    if s.len() > 0 {
        let t = s.drop_last();
        let x = s.last();
        assert(s == t.push(x));
        assert(names_distinct(t));
        lemma_filter_keeps_names_distinct(t, p);
        t.lemma_filter_push(x, p);
        if p(x) {
            let f = t.filter(p);
            assert forall|i: int| 0 <= i < f.len() implies f[i].id@ != x.id@ by {
                assert(f.contains(f[i]));
                t.lemma_filter_contains_rev(p, f[i]);
                let a = choose|a: int| 0 <= a < t.len() && t[a] == f[i];
                assert(s[a] == t[a]);
                assert(s[s.len() - 1] == x);
            }
        }
    }
}

/// Law: registering a hook under a name leaves exactly one hook of that
/// name, the last one, and keeps names distinct.
pub proof fn lemma_set_named_keeps_one<H>(before: Seq<RegisteredHook<H>>, after: Seq<RegisteredHook<H>>, id: Seq<char>)
    requires
        names_distinct(before),
        after.drop_last() == before.filter(named_other(id)),
        after.len() == before.filter(named_other(id)).len() + 1,
        after.last().id@ == id,
    ensures
        names_distinct(after),
        forall|i: int| 0 <= i < after.len() && after[i].id@ == id ==> i == after.len() - 1,
{
    broadcast use vstd::seq_lib::group_filter_ensures;

    let kept = before.filter(named_other(id));
    let n = kept.len() as int;
    lemma_filter_keeps_names_distinct(before, named_other(id));
    assert forall|i: int| 0 <= i < n implies after[i] == kept[i] && kept[i].id@ != id by {
        assert(after.drop_last()[i] == after[i]);
        assert(named_other::<H>(id)(kept[i]));
    }
}

/// Law: after a name is cleared no hook carries it.
pub proof fn lemma_clear_named_removes<H>(before: Seq<RegisteredHook<H>>, id: Seq<char>)
    ensures
        forall|i: int|
            0 <= i < before.filter(named_other(id)).len() ==> (#[trigger] before.filter(
                named_other(id),
            )[i]).id@ != id,
{
    broadcast use vstd::seq_lib::group_filter_ensures;

    assert forall|i: int| 0 <= i < before.filter(named_other(id)).len() implies (#[trigger] before.filter(
        named_other(id),
    )[i]).id@ != id by {
        assert(named_other::<H>(id)(before.filter(named_other(id))[i]));
    }
}

} // verus!
