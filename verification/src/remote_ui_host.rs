//! How the host keeps a mounted remote view (an extension panel or widget)
//! in step with the extension: each function is one step between the
//! extension's answers, which the host awaits outside.

use vstd::prelude::*;
use crate::codex_usage::opt_view;
use crate::remote_ui::{
    lemma_validation_message, validate_widget_tree, widget_tree_message, RegisteredRemoteUiWidget,
    RemoteViewTree,
};
use crate::text::{contains_seq, join2, join3, text_contains};

verus! {

/// What the host holds of a mounted remote view.
#[derive(Debug)]
pub struct RemoteViewState {
    pub instance_id: Option<u64>,
    pub tree: Option<RemoteViewTree>,
    pub loading: bool,
    pub error_message: Option<String>,
}

/// Which kind of view the host mounted.
#[derive(Clone, Copy, Debug, PartialEq, Eq, Structural)]
pub enum HostedView {
    Panel,
    Widget,
}

pub open spec fn kind_word(kind: HostedView) -> Seq<char> {
    match kind {
        HostedView::Panel => "panel"@,
        HostedView::Widget => "widget"@,
    }
}

fn kind_name(kind: HostedView) -> (r: &'static str)
    ensures
        r@ == kind_word(kind),
{
    match kind {
        HostedView::Panel => "panel",
        HostedView::Widget => "widget",
    }
}

/// "Extension panel `id` what: error", as the host reports failures.
pub open spec fn failure_text(kind: HostedView, id: Seq<char>, what: Seq<char>, error: Seq<char>) -> Seq<char> {
    "Extension "@ + kind_word(kind) + " `"@ + id + "` "@ + what + ": "@ + error
}

fn failure_message(kind: HostedView, id: &str, what: &str, error: &str) -> (r: String)
    ensures
        r@ == failure_text(kind, id@, what@, error@),
{
    let mut r = join3("Extension ", kind_name(kind), " `");
    r.append(id);
    r.append("` ");
    r.append(what);
    r.append(": ");
    r.append(error);
    r
}

/// Whether the extension lookup failed only because the extension is not
/// loaded (yet): that is no error to show.
pub open spec fn not_loaded(error: Seq<char>) -> bool {
    contains_seq(error, "is not loaded"@)
}

/// What a reload does next.
#[derive(Debug, PartialEq, Eq)]
pub enum ReloadStep {
    /// Nothing is requested.
    Stopped,
    /// The view is rendered, after opening it when it has no instance yet.
    Render { instance_id: Option<u64> },
}

/// Starts a reload. `lookup_error` is why the extension could not be found,
/// if it could not: the reload stops, showing the error unless the
/// extension is merely not loaded. Otherwise the view is marked loading.
pub fn begin_reload(state: &mut RemoteViewState, kind: HostedView, qualified_id: &str, lookup_error: Option<&str>) -> (step:
    ReloadStep)
    ensures
        final(state).instance_id == old(state).instance_id,
        final(state).tree == old(state).tree,
        match lookup_error {
            Some(e) => {
                &&& step == ReloadStep::Stopped
                &&& !final(state).loading
                &&& opt_view(final(state).error_message) == if not_loaded(e@) {
                    None
                } else {
                    Some(failure_text(kind, qualified_id@, "reload failed"@, e@))
                }
            },
            None => {
                &&& step == (ReloadStep::Render { instance_id: old(state).instance_id })
                &&& final(state).loading
                &&& final(state).error_message is None
            },
        },
{
    match lookup_error {
        Some(e) => {
            state.loading = false;
            if text_contains(e, "is not loaded") {
                state.error_message = None;
            } else {
                state.error_message = Some(failure_message(kind, qualified_id, "reload failed", e));
            }
            ReloadStep::Stopped
        },
        None => {
            state.loading = true;
            state.error_message = None;
            ReloadStep::Render { instance_id: state.instance_id }
        },
    }
}

/// Takes in a panel's rendered tree, or why rendering failed. A rendered
/// tree is shown (and the host saves it as the panel's snapshot).
pub fn finish_panel_reload(state: &mut RemoteViewState, qualified_panel_id: &str, result: Result<(u64, RemoteViewTree), String>)
    ensures
        !final(state).loading,
        match result {
            Ok((instance_id, tree)) => {
                &&& final(state).instance_id == Some(instance_id)
                &&& final(state).tree == Some(tree)
                &&& final(state).error_message is None
            },
            Err(e) => {
                &&& final(state).instance_id == old(state).instance_id
                &&& final(state).tree == old(state).tree
                &&& opt_view(final(state).error_message) == Some(
                    failure_text(HostedView::Panel, qualified_panel_id@, "reload failed"@, e@),
                )
            },
        },
{
    state.loading = false;
    match result {
        Ok((instance_id, tree)) => {
            state.instance_id = Some(instance_id);
            state.tree = Some(tree);
            state.error_message = None;
        },
        Err(e) => {
            state.error_message = Some(
                failure_message(HostedView::Panel, qualified_panel_id, "reload failed", e.as_str()),
            );
        },
    }
}

/// Takes in a widget's rendered tree, or why rendering failed. A tree that
/// does not fit the widget's slot is dropped and the reason shown.
pub fn finish_widget_reload(
    state: &mut RemoteViewState,
    widget: &RegisteredRemoteUiWidget,
    result: Result<(u64, RemoteViewTree), String>,
)
    ensures
        !final(state).loading,
        match result {
            Ok((instance_id, tree)) => {
                &&& final(state).instance_id == Some(instance_id)
                &&& match widget_tree_message(*widget, tree.nodes@) {
                    None => final(state).tree == Some(tree) && final(state).error_message is None,
                    Some(m) => final(state).tree is None && opt_view(final(state).error_message) == Some(
                        failure_text(HostedView::Widget, widget.qualified_widget_id@, "validation failed"@, m),
                    ),
                }
            },
            Err(e) => {
                &&& final(state).instance_id == old(state).instance_id
                &&& final(state).tree == old(state).tree
                &&& opt_view(final(state).error_message) == Some(
                    failure_text(HostedView::Widget, widget.qualified_widget_id@, "reload failed"@, e@),
                )
            },
        },
{
    state.loading = false;
    match result {
        Ok((instance_id, tree)) => {
            state.instance_id = Some(instance_id);
            let verdict = validate_widget_tree(widget, &tree);
            proof {
                lemma_validation_message(*widget, tree, verdict);
            }
            match verdict {
                Ok(()) => {
                    state.tree = Some(tree);
                    state.error_message = None;
                },
                Err(error) => {
                    let message = error.message();
                    state.tree = None;
                    state.error_message = Some(
                        failure_message(
                            HostedView::Widget,
                            widget.qualified_widget_id.as_str(),
                            "validation failed",
                            message.as_str(),
                        ),
                    );
                },
            }
        },
        Err(e) => {
            state.error_message = Some(
                failure_message(HostedView::Widget, widget.qualified_widget_id.as_str(), "reload failed", e.as_str()),
            );
        },
    }
}

/// What an event does next.
#[derive(Debug, PartialEq, Eq)]
pub enum EventStep {
    /// The view has no instance yet: the event is dropped.
    Ignored,
    /// The extension could not be found; the error is shown.
    Failed,
    /// The event goes to this instance.
    Dispatch(u64),
}

/// Starts handling an event on the view.
pub fn begin_event(state: &mut RemoteViewState, kind: HostedView, qualified_id: &str, lookup_error: Option<&str>) -> (step:
    EventStep)
    ensures
        final(state).instance_id == old(state).instance_id,
        final(state).tree == old(state).tree,
        final(state).loading == old(state).loading,
        match old(state).instance_id {
            None => step == EventStep::Ignored && opt_view(final(state).error_message) == opt_view(
                old(state).error_message,
            ),
            Some(id) => match lookup_error {
                Some(e) => step == EventStep::Failed && opt_view(final(state).error_message) == Some(
                    failure_text(kind, qualified_id@, "event setup failed"@, e@),
                ),
                None => step == EventStep::Dispatch(id) && opt_view(final(state).error_message) == opt_view(
                    old(state).error_message,
                ),
            },
        },
{
    let id = match state.instance_id {
        Some(id) => id,
        None => return EventStep::Ignored,
    };
    match lookup_error {
        Some(e) => {
            state.error_message = Some(failure_message(kind, qualified_id, "event setup failed", e));
            EventStep::Failed
        },
        None => EventStep::Dispatch(id),
    }
}

/// What the extension answers to an event.
#[derive(Debug, PartialEq, Eq)]
pub enum EventOutcome {
    Noop,
    Rerender,
    RerenderVirtualRange,
    ShowError(String),
}

/// What the host does after an event.
#[derive(Debug, PartialEq, Eq)]
pub enum EventFollowUp {
    Nothing,
    /// The view is reloaded for the event.
    Reload,
    /// The message is shown as a toast.
    Toast(String),
}

/// Takes in the extension's answer to an event. A failure is shown on the
/// view under `name` (a panel's title, a widget's qualified id).
pub fn finish_event(state: &mut RemoteViewState, kind: HostedView, name: &str, result: Result<EventOutcome, String>) -> (r:
    EventFollowUp)
    ensures
        final(state).instance_id == old(state).instance_id,
        final(state).tree == old(state).tree,
        final(state).loading == old(state).loading,
        match result {
            Ok(EventOutcome::Noop) => r == EventFollowUp::Nothing && final(state).error_message
                == old(state).error_message,
            Ok(EventOutcome::Rerender) => r == EventFollowUp::Reload && final(state).error_message
                == old(state).error_message,
            Ok(EventOutcome::RerenderVirtualRange) => r == EventFollowUp::Reload && final(state).error_message
                == old(state).error_message,
            Ok(EventOutcome::ShowError(m)) => r == EventFollowUp::Toast(m) && final(state).error_message
                == old(state).error_message,
            Err(e) => r == EventFollowUp::Nothing && opt_view(final(state).error_message) == Some(
                failure_text(kind, name@, "event failed"@, e@),
            ),
        },
{
    match result {
        Ok(EventOutcome::Noop) => EventFollowUp::Nothing,
        Ok(EventOutcome::Rerender) | Ok(EventOutcome::RerenderVirtualRange) => EventFollowUp::Reload,
        Ok(EventOutcome::ShowError(m)) => EventFollowUp::Toast(m),
        Err(e) => {
            state.error_message = Some(failure_message(kind, name, "event failed", e.as_str()));
            EventFollowUp::Nothing
        },
    }
}

} // verus!

verus! {

/// A widget a strip has mounted: what it was mounted for, and its state.
#[derive(Debug)]
pub struct MountedRemoteUiWidget {
    pub descriptor: RegisteredRemoteUiWidget,
    pub state: RemoteViewState,
}

/// Where the widget for one descriptor comes from when a strip refreshes.
#[derive(Debug, PartialEq, Eq)]
pub enum StripSlot {
    /// The widget mounted at position `from` is kept for the descriptor.
    /// `reset`: its root view changed, so its instance, tree and error are
    /// dropped; `reload`: it renders again.
    Keep { from: usize, reset: bool, reload: bool },
    /// A new widget is mounted for the descriptor.
    Mount,
}

/// How a strip refreshes: one slot per descriptor, in order, and the
/// positions of the mounted widgets that are closed, in order.
#[derive(Debug, PartialEq, Eq)]
pub struct StripPlan {
    pub slots: Vec<StripSlot>,
    pub close: Vec<usize>,
}

/// Whether the widget at `i` is the last one mounted under its id: the one
/// a lookup by id finds.
pub open spec fn is_current(items: Seq<MountedRemoteUiWidget>, i: int) -> bool {
    forall|j: int|
        i < j < items.len() ==> items[j].descriptor.qualified_widget_id@ != items[i].descriptor.qualified_widget_id@
}

/// Whether descriptor `k` is the first one with its id.
pub open spec fn first_with_id(ds: Seq<RegisteredRemoteUiWidget>, k: int) -> bool {
    forall|j: int| 0 <= j < k ==> ds[j].qualified_widget_id@ != ds[k].qualified_widget_id@
}

/// Whether some descriptor has the id `id`.
pub open spec fn wanted(ds: Seq<RegisteredRemoteUiWidget>, id: Seq<char>) -> bool {
    exists|k: int| 0 <= k < ds.len() && ds[k].qualified_widget_id@ == id
}

/// Whether a kept widget renders again: unless it is loading, when its
/// root view changed or it lacks an instance or a tree or shows an error.
pub open spec fn needs_reload(w: MountedRemoteUiWidget, d: RegisteredRemoteUiWidget) -> bool {
    !w.state.loading && (w.descriptor.root_view@ != d.root_view@ || w.state.instance_id is None || w.state.tree is None
        || w.state.error_message is Some)
}

/// The slot of descriptor `k`: the first descriptor with an id keeps the
/// current widget mounted under that id; any other descriptor mounts anew.
pub open spec fn slot_for(items: Seq<MountedRemoteUiWidget>, ds: Seq<RegisteredRemoteUiWidget>, k: int, s: StripSlot) -> bool {
    if first_with_id(ds, k) && exists|i: int|
        0 <= i < items.len() && is_current(items, i) && items[i].descriptor.qualified_widget_id@
            == ds[k].qualified_widget_id@ {
        s matches StripSlot::Keep { from, reset, reload } && 0 <= from < items.len() && is_current(items, from as int)
            && items[from as int].descriptor.qualified_widget_id@ == ds[k].qualified_widget_id@ && reset == (
        items[from as int].descriptor.root_view@ != ds[k].root_view@) && reload == needs_reload(items[from as int], ds[k])
    } else {
        s is Mount
    }
}

fn has_earlier_id(ds: &Vec<RegisteredRemoteUiWidget>, k: usize) -> (r: bool)
    requires
        k < ds@.len(),
    ensures
        r == !first_with_id(ds@, k as int),
{
    let mut j: usize = 0;
    while j < k
        invariant
            k < ds@.len(),
            j <= k,
            forall|m: int| 0 <= m < j ==> ds@[m].qualified_widget_id@ != ds@[k as int].qualified_widget_id@,
        decreases k - j,
    {
        if crate::text::same_text(ds[j].qualified_widget_id.as_str(), ds[k].qualified_widget_id.as_str()) {
            return true;
        }
        j = j + 1;
    }
    false
}

/// The position of the current widget mounted under `id`.
fn current_with_id(items: &Vec<MountedRemoteUiWidget>, id: &str) -> (r: Option<usize>)
    ensures
        match r {
            Some(i) => i < items@.len() && is_current(items@, i as int)
                && items@[i as int].descriptor.qualified_widget_id@ == id@,
            None => forall|i: int|
                0 <= i < items@.len() && is_current(items@, i) ==> items@[i].descriptor.qualified_widget_id@ != id@,
        },
{
    let mut j: usize = items.len();
    while j > 0
        invariant
            j <= items@.len(),
            forall|m: int| j <= m < items@.len() ==> items@[m].descriptor.qualified_widget_id@ != id@,
        decreases j,
    {
        let i = j - 1;
        if crate::text::same_text(items[i].descriptor.qualified_widget_id.as_str(), id) {
            return Some(i);
        }
        j = i;
    }
    proof {
        assert forall|i: int| 0 <= i < items@.len() && is_current(items@, i) implies items@[i].descriptor.qualified_widget_id@
            != id@ by {}
    }
    None
}

fn is_wanted(ds: &Vec<RegisteredRemoteUiWidget>, id: &str) -> (r: bool)
    ensures
        r == wanted(ds@, id@),
{
    let mut k: usize = 0;
    while k < ds.len()
        invariant
            k <= ds@.len(),
            forall|m: int| 0 <= m < k ==> ds@[m].qualified_widget_id@ != id@,
        decreases ds@.len() - k,
    {
        if crate::text::same_text(ds[k].qualified_widget_id.as_str(), id) {
            return true;
        }
        k = k + 1;
    }
    false
}

/// Law: a strip refresh keeps each mounted widget for one descriptor at
/// most, and never closes a widget it keeps.
pub proof fn lemma_strip_plan_keeps_each_widget_once(
    items: Seq<MountedRemoteUiWidget>,
    ds: Seq<RegisteredRemoteUiWidget>,
    slots: Seq<StripSlot>,
    close: Seq<usize>,
)
    requires
        slots.len() == ds.len(),
        forall|k: int| 0 <= k < ds.len() ==> slot_for(items, ds, k, #[trigger] slots[k]),
        forall|i: int|
            0 <= i < items.len() ==> (#[trigger] close.contains(i as usize) <==> (is_current(items, i) && !wanted(
                ds,
                items[i].descriptor.qualified_widget_id@,
            ))),
    ensures
        forall|k1: int, k2: int|
            0 <= k1 < k2 < slots.len() && slots[k1] is Keep && slots[k2] is Keep ==> slots[k1]->from
                != slots[k2]->from,
        forall|k: int| 0 <= k < slots.len() && slots[k] is Keep ==> !close.contains(slots[k]->from),
{
    assert forall|k1: int, k2: int|
        0 <= k1 < k2 < slots.len() && slots[k1] is Keep && slots[k2] is Keep implies slots[k1]->from
            != slots[k2]->from by {
        assert(slot_for(items, ds, k1, slots[k1]));
        assert(slot_for(items, ds, k2, slots[k2]));
        assert(first_with_id(ds, k2));
    }
    assert forall|k: int| 0 <= k < slots.len() && slots[k] is Keep implies !close.contains(slots[k]->from) by {
        assert(slot_for(items, ds, k, slots[k]));
        let from = slots[k]->from as int;
        assert(wanted(ds, items[from].descriptor.qualified_widget_id@));
        assert(close.contains(from as usize) <==> (is_current(items, from) && !wanted(
            ds,
            items[from].descriptor.qualified_widget_id@,
        )));
    }
}

/// How a strip showing `items` refreshes to show `descriptors`: each
/// descriptor keeps the widget already mounted under its id (the first
/// descriptor with an id takes it) or mounts a new one, and the mounted
/// widgets no descriptor wants are closed.
pub fn plan_strip_refresh(items: &Vec<MountedRemoteUiWidget>, descriptors: &Vec<RegisteredRemoteUiWidget>) -> (r:
    StripPlan)
    ensures
        r.slots@.len() == descriptors@.len(),
        forall|k: int| 0 <= k < descriptors@.len() ==> slot_for(items@, descriptors@, k, #[trigger] r.slots@[k]),
        forall|n: int| 0 <= n < r.close@.len() ==> (#[trigger] r.close@[n]) < items@.len(),
        forall|n: int, m: int| 0 <= n < m < r.close@.len() ==> r.close@[n] < r.close@[m],
        forall|i: int|
            0 <= i < items@.len() ==> (#[trigger] r.close@.contains(i as usize) <==> (is_current(items@, i) && !wanted(
                descriptors@,
                items@[i].descriptor.qualified_widget_id@,
            ))),
{
    let mut slots: Vec<StripSlot> = Vec::new();
    for k in 0..descriptors.len()
        invariant
            slots@.len() == k,
            forall|m: int| 0 <= m < k ==> slot_for(items@, descriptors@, m, #[trigger] slots@[m]),
    {
        let d = &descriptors[k];
        let slot = if has_earlier_id(descriptors, k) {
            StripSlot::Mount
        } else {
            match current_with_id(items, d.qualified_widget_id.as_str()) {
                Some(i) => {
                    let w = &items[i];
                    let reset = !crate::text::same_text(w.descriptor.root_view.as_str(), d.root_view.as_str());
                    let reload = !w.state.loading && (reset || w.state.instance_id.is_none() || w.state.tree.is_none()
                        || w.state.error_message.is_some());
                    StripSlot::Keep { from: i, reset, reload }
                },
                None => StripSlot::Mount,
            }
        };
        slots.push(slot);
        proof {
            assert(slots@[k as int] == slot);
        }
    }
    let mut close: Vec<usize> = Vec::new();
    for i in 0..items.len()
        invariant
            forall|n: int| 0 <= n < close@.len() ==> (#[trigger] close@[n]) < i,
            forall|n: int, m: int| 0 <= n < m < close@.len() ==> close@[n] < close@[m],
            forall|j: int|
                0 <= j < i ==> (#[trigger] close@.contains(j as usize) <==> (is_current(items@, j) && !wanted(
                    descriptors@,
                    items@[j].descriptor.qualified_widget_id@,
                ))),
    {
        let id = items[i].descriptor.qualified_widget_id.as_str();
        let mut current = true;
        let mut j: usize = i + 1;
        while j < items.len()
            invariant
                i < j <= items@.len(),
                id@ == items@[i as int].descriptor.qualified_widget_id@,
                current == forall|m: int| i < m < j ==> items@[m].descriptor.qualified_widget_id@ != id@,
            decreases items@.len() - j,
        {
            if crate::text::same_text(items[j].descriptor.qualified_widget_id.as_str(), id) {
                current = false;
            }
            j = j + 1;
        }
        assert(current == is_current(items@, i as int));
        let ghost before = close@;
        let ghost closing = current && !wanted(descriptors@, items@[i as int].descriptor.qualified_widget_id@);
        if current && !is_wanted(descriptors, id) {
            close.push(i);
        }
        proof {
            if closing {
                assert(close@ == before.push(i));
                assert(close@[before.len() as int] == i);
                assert(close@.contains(i));
            } else {
                assert(close@ == before);
                assert(!close@.contains(i)) by {
                    if close@.contains(i) {
                        let n = choose|n: int| 0 <= n < close@.len() && close@[n] == i;
                        assert(before[n] < i);
                    }
                }
            }
            assert forall|x: int| 0 <= x < i implies (#[trigger] close@.contains(x as usize) <==> before.contains(x as usize)) by {
                if close@.contains(x as usize) {
                    let n = choose|n: int| 0 <= n < close@.len() && close@[n] == x as usize;
                    if n < before.len() {
                        assert(before[n] == x as usize);
                    }
                }
                if before.contains(x as usize) {
                    let n = choose|n: int| 0 <= n < before.len() && before[n] == x as usize;
                    assert(close@[n] == x as usize);
                }
            }
            assert forall|j: int| 0 <= j < i + 1 implies (#[trigger] close@.contains(j as usize) <==> (is_current(
                items@,
                j,
            ) && !wanted(descriptors@, items@[j].descriptor.qualified_widget_id@))) by {
                if j < i {
                    assert(close@.contains(j as usize) <==> before.contains(j as usize));
                }
            }
        }
    }
    StripPlan { slots, close }
}

} // verus!

verus! {

/// A panel mounted in a workspace: what it was mounted for, and its state.
#[derive(Debug)]
pub struct MountedRemoteUiPanel {
    pub descriptor: crate::remote_ui_registry::RegisteredRemoteUiPanel,
    pub state: RemoteViewState,
}

/// Mounting a panel that is mounted already: when its root view changed it
/// takes the new descriptor and drops its instance, tree and error; it then
/// renders again (the result) unless it is loading or has everything to
/// show.
pub fn remount_panel(panel: &mut MountedRemoteUiPanel, descriptor: crate::remote_ui_registry::RegisteredRemoteUiPanel) -> (reload:
    bool)
    ensures
        old(panel).descriptor.root_view@ != descriptor.root_view@ ==> {
            &&& final(panel).descriptor == descriptor
            &&& final(panel).state.instance_id is None
            &&& final(panel).state.tree is None
            &&& final(panel).state.error_message is None
            &&& final(panel).state.loading == old(panel).state.loading
            &&& reload == !old(panel).state.loading
        },
        old(panel).descriptor.root_view@ == descriptor.root_view@ ==> {
            &&& *final(panel) == *old(panel)
            &&& reload == (!old(panel).state.loading && (old(panel).state.instance_id is None
                || old(panel).state.tree is None || old(panel).state.error_message is Some))
        },
{
    if !crate::text::same_text(panel.descriptor.root_view.as_str(), descriptor.root_view.as_str()) {
        panel.descriptor = descriptor;
        panel.state.instance_id = None;
        panel.state.tree = None;
        panel.state.error_message = None;
    }
    !panel.state.loading && (panel.state.instance_id.is_none() || panel.state.tree.is_none()
        || panel.state.error_message.is_some())
}

} // verus!
