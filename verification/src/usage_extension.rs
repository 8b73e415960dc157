//! The example remote UI extension that shows Codex usage: its snapshot of
//! the shared auth file, the titlebar, footer and panel views it renders,
//! and how it answers view events.

use vstd::prelude::*;
use vstd::string::StringSliceAdditionalSpecFns;
use crate::codex_usage::{
    cards_view, copy_cards, copy_opt, default_credits_detail,
    format_plan_label, last_chars, opt_view, plan_label, CreditsSummary, CreditsView,
    LimitCardView, UsageLimitCard,
};
use crate::remote_ui::{
    kind_view, make_node, node_view, nodes_view, props_view, push_node, KindView, NodeView,
    ProgressBarProps, RemoteViewNode, RemoteViewNodeKind, RemoteViewTree,
};
use crate::text::{decimal, join2, join3, push_decimal, same_text};
use crate::json::{
    distinct, finite_reading_of, get_member, is_count, is_opt_text, is_text, json_member,
    json_opt_text, json_text, json_u64, keys_of, lemma_member_of_distinct, member, opt_json,
    read_finite, text_of, u64_of, JsonMember, JsonValue,
};
use crate::codex_usage::{cap100, optional_string, text_member, text_or, u32_or_zero, u64_or_zero};

verus! {

/// What the extension shows: auth status, plan, usage windows and credits.
#[derive(Clone, Debug, PartialEq, Eq)]
pub struct SidecarSnapshot {
    pub auth_status: String,
    pub plan_type: Option<String>,
    pub primary_used_percent: u32,
    pub usage_limits: Vec<UsageLimitCard>,
    pub credits_summary: CreditsSummary,
}

pub struct SnapshotView {
    pub auth_status: Seq<char>,
    pub plan_type: Option<Seq<char>>,
    pub primary_used_percent: u32,
    pub usage_limits: Seq<LimitCardView>,
    pub credits_summary: CreditsView,
}

impl View for SidecarSnapshot {
    type V = SnapshotView;

    open spec fn view(&self) -> SnapshotView {
        SnapshotView {
            auth_status: self.auth_status@,
            plan_type: opt_view(self.plan_type),
            primary_used_percent: self.primary_used_percent,
            usage_limits: cards_view(self.usage_limits@),
            credits_summary: self.credits_summary@,
        }
    }
}

/// The snapshot shown while nobody is signed in (credits read `0`).
pub open spec fn signed_out_view() -> SnapshotView {
    SnapshotView {
        auth_status: "signed-out"@,
        plan_type: None,
        primary_used_percent: 0,
        usage_limits: Seq::empty(),
        credits_summary: CreditsView { balance_label: "0"@, detail: default_credits_detail() },
    }
}

pub open spec fn pending_view() -> SnapshotView {
    SnapshotView { auth_status: "pending"@, ..signed_out_view() }
}

/// The error snapshot: the message (or a default) stands in the credits
/// detail.
pub open spec fn error_view(message: Option<Seq<char>>) -> SnapshotView {
    SnapshotView {
        auth_status: "error"@,
        credits_summary: CreditsView {
            balance_label: "0"@,
            detail: match message {
                Some(m) => m,
                None => "ChatGPT authentication failed."@,
            },
        },
        ..signed_out_view()
    }
}

/// The primary window's remaining share: the first card's as it is, or what
/// the used share (capped at 100) leaves.
pub open spec fn remaining_of(s: SnapshotView) -> u32 {
    if s.usage_limits.len() > 0 {
        s.usage_limits[0].remaining_percent
    } else if s.primary_used_percent <= 100 {
        (100 - s.primary_used_percent) as u32
    } else {
        0
    }
}

pub open spec fn tooltip_text(s: SnapshotView, has_error: bool) -> Seq<char> {
    if has_error {
        "Retry ChatGPT Codex usage refresh"@
    } else if s.auth_status == "pending"@ {
        "Waiting for ChatGPT sign-in to complete"@
    } else if s.auth_status == "authenticated"@ {
        "Open the Codex usage panel"@
    } else {
        "Sign in to view Codex usage"@
    }
}

impl SidecarSnapshot {
    /// A field-by-field copy.
    pub fn duplicate(&self) -> (r: Self)
        ensures
            r@ == self@,
    {
        SidecarSnapshot {
            auth_status: self.auth_status.clone(),
            plan_type: copy_opt(&self.plan_type),
            primary_used_percent: self.primary_used_percent,
            usage_limits: copy_cards(&self.usage_limits),
            credits_summary: self.credits_summary.duplicate(),
        }
    }

    /// The snapshot shown while nobody is signed in.
    pub fn signed_out() -> (r: Self)
        ensures
            r@ == signed_out_view(),
    {
        let r = SidecarSnapshot {
            auth_status: "signed-out".to_owned(),
            plan_type: None,
            primary_used_percent: 0,
            usage_limits: Vec::new(),
            credits_summary: CreditsSummary {
                balance_label: "0".to_owned(),
                detail: "Use credits to send messages beyond your plan limit.".to_owned(),
            },
        };
        assert(cards_view(r.usage_limits@) =~= Seq::<LimitCardView>::empty());
        r
    }

    /// The titlebar badge: the used share of the primary window.
    pub fn status_badge(&self) -> (r: String)
        ensures
            r@ == decimal(self.primary_used_percent as nat) + "%"@,
    {
        let mut r = String::new();
        push_decimal(&mut r, self.primary_used_percent as u64);
        r.append("%");
        r
    }

    /// The footer tooltip: retry after an error, wait while pending, open
    /// the panel when signed in, else sign in.
    pub fn footer_tooltip(&self, sidecar_error: Option<&str>) -> (r: &'static str)
        ensures
            r@ == tooltip_text(self@, sidecar_error is Some),
    {
        if sidecar_error.is_some() {
            "Retry ChatGPT Codex usage refresh"
        } else if self.is_pending() {
            "Waiting for ChatGPT sign-in to complete"
        } else if self.is_authenticated() {
            "Open the Codex usage panel"
        } else {
            "Sign in to view Codex usage"
        }
    }

    /// Whether the snapshot is of a signed-in account.
    pub fn is_authenticated(&self) -> (r: bool)
        ensures
            r == (self.auth_status@ == "authenticated"@),
    {
        same_text(self.auth_status.as_str(), "authenticated")
    }

    /// Whether a sign-in is under way.
    pub fn is_pending(&self) -> (r: bool)
        ensures
            r == (self.auth_status@ == "pending"@),
    {
        same_text(self.auth_status.as_str(), "pending")
    }

    /// The share of the primary usage window left, in percent.
    pub fn primary_remaining_percent(&self) -> (r: u32)
        ensures
            r == remaining_of(self@),
    {
        if self.usage_limits.len() > 0 {
            self.usage_limits[0].remaining_percent
        } else if self.primary_used_percent <= 100 {
            100 - self.primary_used_percent
        } else {
            0
        }
    }

    /// `<remaining>% left`.
    pub fn footer_summary(&self) -> (r: String)
        ensures
            r@ == decimal(remaining_of(self@) as nat) + "% left"@,
    {
        let mut r = String::new();
        push_decimal(&mut r, self.primary_remaining_percent() as u64);
        r.append("% left");
        r
    }

    /// The plan line of the panel, where the plan is known.
    pub fn panel_plan_label(&self) -> (r: Option<String>)
        ensures
            opt_view(r) == match self.plan_type {
                Some(p) => Some(plan_label(p@)),
                None => None,
            },
    {
        match &self.plan_type {
            Some(p) => Some(format_plan_label(p.as_str())),
            None => None,
        }
    }
}

/// The snapshot shown while a sign-in is under way.
pub fn pending_snapshot() -> (r: SidecarSnapshot)
    ensures
        r@ == pending_view(),
{
    let base = SidecarSnapshot::signed_out();
    SidecarSnapshot { auth_status: "pending".to_owned(), ..base }
}

/// The snapshot shown after a failed sign-in, with its message.
pub fn error_snapshot(message: Option<&str>) -> (r: SidecarSnapshot)
    ensures
        r@ == error_view(
            match message {
                Some(m) => Some(m@),
                None => None,
            },
        ),
{
    let mut snapshot = SidecarSnapshot::signed_out();
    snapshot.auth_status = "error".to_owned();
    snapshot.credits_summary.detail = match message {
        Some(m) => m.to_owned(),
        None => "ChatGPT authentication failed.".to_owned(),
    };
    snapshot
}

/// The auth file the extension shares with the sign-in sidecar.
#[derive(Clone, Debug, PartialEq, Eq)]
pub struct PersistedAuthState {
    pub auth_status: String,
    pub access_token: Option<String>,
    pub refresh_token: Option<String>,
    pub account_id: Option<String>,
    pub expires_at: u64,
    pub last_refresh_at: u64,
    pub last_snapshot: Option<SidecarSnapshot>,
    pub last_fetched_at: u64,
    pub last_error: Option<String>,
}

pub struct AuthStateView {
    pub auth_status: Seq<char>,
    pub access_token: Option<Seq<char>>,
    pub refresh_token: Option<Seq<char>>,
    pub account_id: Option<Seq<char>>,
    pub expires_at: u64,
    pub last_refresh_at: u64,
    pub last_snapshot: Option<SnapshotView>,
    pub last_fetched_at: u64,
    pub last_error: Option<Seq<char>>,
}

pub open spec fn opt_snapshot_view(o: Option<SidecarSnapshot>) -> Option<SnapshotView> {
    match o {
        Some(s) => Some(s@),
        None => None,
    }
}

impl View for PersistedAuthState {
    type V = AuthStateView;

    open spec fn view(&self) -> AuthStateView {
        AuthStateView {
            auth_status: self.auth_status@,
            access_token: opt_view(self.access_token),
            refresh_token: opt_view(self.refresh_token),
            account_id: opt_view(self.account_id),
            expires_at: self.expires_at,
            last_refresh_at: self.last_refresh_at,
            last_snapshot: opt_snapshot_view(self.last_snapshot),
            last_fetched_at: self.last_fetched_at,
            last_error: opt_view(self.last_error),
        }
    }
}

impl PersistedAuthState {
    /// The state of a store nobody signed in to.
    pub fn signed_out() -> (r: Self)
        ensures
            r@ == (AuthStateView {
                auth_status: "signed-out"@,
                access_token: None,
                refresh_token: None,
                account_id: None,
                expires_at: 0,
                last_refresh_at: 0,
                last_snapshot: None,
                last_fetched_at: 0,
                last_error: None,
            }),
    {
        PersistedAuthState {
            auth_status: "signed-out".to_owned(),
            access_token: None,
            refresh_token: None,
            account_id: None,
            expires_at: 0,
            last_refresh_at: 0,
            last_snapshot: None,
            last_fetched_at: 0,
            last_error: None,
        }
    }
}

/// Why the host asks for a render.
#[derive(Clone, Copy, Debug, PartialEq, Eq, Structural)]
pub enum RenderReason {
    Initial,
    Event,
    HostContextChanged,
    VirtualRangeChanged,
    ExplicitRefresh,
}

/// Only an explicit refresh reloads the usage from the network.
pub fn should_force_usage_refresh(reason: RenderReason) -> (r: bool)
    ensures
        r == (reason == RenderReason::ExplicitRefresh),
{
    match reason {
        RenderReason::ExplicitRefresh => true,
        _ => false,
    }
}

/// The name of a render reason, as the log writes it.
pub fn render_reason_label(reason: RenderReason) -> (r: &'static str)
    ensures
        r@ == match reason {
            RenderReason::Initial => "initial"@,
            RenderReason::Event => "event"@,
            RenderReason::HostContextChanged => "host-context-changed"@,
            RenderReason::VirtualRangeChanged => "virtual-range-changed"@,
            RenderReason::ExplicitRefresh => "explicit-refresh"@,
        },
{
    match reason {
        RenderReason::Initial => "initial",
        RenderReason::Event => "event",
        RenderReason::HostContextChanged => "host-context-changed",
        RenderReason::VirtualRangeChanged => "virtual-range-changed",
        RenderReason::ExplicitRefresh => "explicit-refresh",
    }
}

/// Where the snapshot to show comes from.
#[derive(Debug)]
pub enum SnapshotPlan {
    /// Shown as it is, without a request.
    Ready(SidecarSnapshot),
    /// Fetched from the network (refreshing the token when forced).
    Fetch { force_refresh: bool },
}

/// The snapshot for a loaded state: pending while a sign-in runs; without
/// a session the cached snapshot, an error or signed out; with one the
/// cached snapshot unless a refresh is forced or nothing is cached.
pub fn plan_snapshot_load(state: &PersistedAuthState, force_refresh: bool) -> (r: SnapshotPlan)
    ensures
        state.auth_status@ == "pending"@ ==> (r matches SnapshotPlan::Ready(s) && s@ == pending_view()),
        state.auth_status@ != "pending"@ && state.refresh_token is None ==> (r matches SnapshotPlan::Ready(
            s,
        ) && s@ == match state.last_snapshot {
            Some(x) => x@,
            None => if state.auth_status@ == "error"@ {
                error_view(opt_view(state.last_error))
            } else {
                signed_out_view()
            },
        }),
        state.auth_status@ != "pending"@ && state.refresh_token is Some ==> if !force_refresh
            && state.last_snapshot is Some {
            r matches SnapshotPlan::Ready(s) && s@ == state.last_snapshot->0@
        } else {
            r matches SnapshotPlan::Fetch { force_refresh: f } && f == force_refresh
        },
{
    if same_text(state.auth_status.as_str(), "pending") {
        SnapshotPlan::Ready(pending_snapshot())
    } else if state.refresh_token.is_none() {
        match &state.last_snapshot {
            Some(x) => SnapshotPlan::Ready(x.duplicate()),
            None => if same_text(state.auth_status.as_str(), "error") {
                match &state.last_error {
                    Some(m) => SnapshotPlan::Ready(error_snapshot(Some(m.as_str()))),
                    None => SnapshotPlan::Ready(error_snapshot(None)),
                }
            } else {
                SnapshotPlan::Ready(SidecarSnapshot::signed_out())
            },
        }
    } else if !force_refresh {
        match &state.last_snapshot {
            Some(x) => SnapshotPlan::Ready(x.duplicate()),
            None => SnapshotPlan::Fetch { force_refresh: false },
        }
    } else {
        SnapshotPlan::Fetch { force_refresh: true }
    }
}

/// Records a fetched snapshot at `now`.
pub fn store_fetched_snapshot(state: &mut PersistedAuthState, snapshot: &SidecarSnapshot, now: u64)
    ensures
        final(state)@ == (AuthStateView {
            auth_status: "authenticated"@,
            last_snapshot: Some(snapshot@),
            last_fetched_at: now,
            last_error: None,
            ..old(state)@
        }),
{
    state.auth_status = "authenticated".to_owned();
    state.last_snapshot = Some(snapshot.duplicate());
    state.last_fetched_at = now;
    state.last_error = None;
}

/// Records a failed fetch.
pub fn record_fetch_error(state: &mut PersistedAuthState, error: &str)
    ensures
        final(state)@ == (AuthStateView { last_error: Some(error@), ..old(state)@ }),
{
    state.last_error = Some(error.to_owned());
}

/// A view the extension keeps open.
#[derive(Debug)]
pub struct DemoViewState {
    pub contribution_id: String,
    pub revision: u64,
    pub snapshot: SidecarSnapshot,
    pub sidecar_error: Option<String>,
}

/// Takes in a freshly loaded snapshot (or the reason it failed, with the
/// signed-out snapshot) and moves to the next revision.
pub fn sync_view(view: &mut DemoViewState, snapshot: SidecarSnapshot, sidecar_error: Option<String>)
    ensures
        final(view).snapshot == snapshot,
        final(view).sidecar_error == sidecar_error,
        final(view).snapshot@ == snapshot@,
        opt_view(final(view).sidecar_error) == opt_view(sidecar_error),
        final(view).revision == crate::codex_usage::bump(old(view).revision),
        final(view).contribution_id == old(view).contribution_id,
{
    view.snapshot = snapshot;
    view.sidecar_error = sidecar_error;
    view.revision = view.revision.saturating_add(1);
}

pub open spec fn icon_path() -> Seq<char> {
    "icons/ai_open_ai.svg"@
}

/// The nodes of the titlebar view.
pub open spec fn titlebar_nodes(s: SnapshotView) -> Seq<NodeView> {
    seq![
        NodeView {
            id: "titlebar.root"@,
            parent: None,
            kind: KindView::Row,
            properties: seq![
                ("clickable"@, "true"@),
                ("gap"@, "4"@),
                ("tooltip"@, "Toggle Codex usage panel"@),
            ],
        },
        NodeView {
            id: "titlebar.icon"@,
            parent: Some("titlebar.root"@),
            kind: KindView::Icon(icon_path()),
            properties: Seq::empty(),
        },
        NodeView {
            id: "titlebar.badge"@,
            parent: Some("titlebar.root"@),
            kind: KindView::Badge(decimal(s.primary_used_percent as nat) + "%"@),
            properties: Seq::empty(),
        },
    ]
}

/// The titlebar view: a clickable row with the icon and the used-share badge.
pub fn render_titlebar_view(view: &DemoViewState) -> (r: RemoteViewTree)
    ensures
        r.revision == view.revision,
        r.root_id@ == "titlebar.root"@,
        nodes_view(r.nodes@) == titlebar_nodes(view.snapshot@),
{
    let mut nodes: Vec<RemoteViewNode> = Vec::new();
    assert(nodes_view(nodes@) =~= Seq::<NodeView>::empty());
    let props = vec![("clickable", "true"), ("gap", "4"), ("tooltip", "Toggle Codex usage panel")];
    assert(props_view(props@) =~= seq![
        ("clickable"@, "true"@),
        ("gap"@, "4"@),
        ("tooltip"@, "Toggle Codex usage panel"@),
    ]);
    push_node(&mut nodes, make_node("titlebar.root".to_owned(), None, RemoteViewNodeKind::Row, props));
    let none: Vec<(&str, &str)> = Vec::new();
    assert(props_view(none@) =~= Seq::<(Seq<char>, Seq<char>)>::empty());
    push_node(
        &mut nodes,
        make_node(
            "titlebar.icon".to_owned(),
            Some("titlebar.root"),
            RemoteViewNodeKind::Icon("icons/ai_open_ai.svg".to_owned()),
            none,
        ),
    );
    let none2: Vec<(&str, &str)> = Vec::new();
    assert(props_view(none2@) =~= Seq::<(Seq<char>, Seq<char>)>::empty());
    push_node(
        &mut nodes,
        make_node(
            "titlebar.badge".to_owned(),
            Some("titlebar.root"),
            RemoteViewNodeKind::Badge(view.snapshot.status_badge()),
            none2,
        ),
    );
    RemoteViewTree { revision: view.revision, root_id: "titlebar.root".to_owned(), nodes }
}

/// The nodes of the footer view.
pub open spec fn footer_nodes(s: SnapshotView, has_error: bool) -> Seq<NodeView> {
    seq![
        NodeView {
            id: "footer.root"@,
            parent: None,
            kind: KindView::Row,
            properties: seq![
                ("clickable"@, "true"@),
                ("gap"@, "4"@),
                ("tooltip"@, tooltip_text(s, has_error)),
            ],
        },
        NodeView {
            id: "footer.icon"@,
            parent: Some("footer.root"@),
            kind: KindView::Icon(icon_path()),
            properties: Seq::empty(),
        },
        NodeView {
            id: "footer.summary"@,
            parent: Some("footer.root"@),
            kind: KindView::Text(decimal(remaining_of(s) as nat) + "% left"@),
            properties: Seq::empty(),
        },
        NodeView {
            id: "footer.progress"@,
            parent: Some("footer.root"@),
            kind: KindView::ProgressBar(remaining_of(s), 100),
            properties: Seq::empty(),
        },
    ]
}

/// The footer view: a clickable row with the icon, the remaining share and
/// a progress bar.
pub fn render_footer_view(view: &DemoViewState) -> (r: RemoteViewTree)
    ensures
        r.revision == view.revision,
        r.root_id@ == "footer.root"@,
        nodes_view(r.nodes@) == footer_nodes(view.snapshot@, view.sidecar_error is Some),
{
    let remaining = view.snapshot.primary_remaining_percent();
    let tooltip = match &view.sidecar_error {
        Some(e) => view.snapshot.footer_tooltip(Some(e.as_str())),
        None => view.snapshot.footer_tooltip(None),
    };
    let mut nodes: Vec<RemoteViewNode> = Vec::new();
    assert(nodes_view(nodes@) =~= Seq::<NodeView>::empty());
    let props = vec![("clickable", "true"), ("gap", "4"), ("tooltip", tooltip)];
    assert(props_view(props@) =~= seq![("clickable"@, "true"@), ("gap"@, "4"@), ("tooltip"@, tooltip@)]);
    push_node(&mut nodes, make_node("footer.root".to_owned(), None, RemoteViewNodeKind::Row, props));
    let p1: Vec<(&str, &str)> = Vec::new();
    assert(props_view(p1@) =~= Seq::<(Seq<char>, Seq<char>)>::empty());
    push_node(
        &mut nodes,
        make_node(
            "footer.icon".to_owned(),
            Some("footer.root"),
            RemoteViewNodeKind::Icon("icons/ai_open_ai.svg".to_owned()),
            p1,
        ),
    );
    let p2: Vec<(&str, &str)> = Vec::new();
    assert(props_view(p2@) =~= Seq::<(Seq<char>, Seq<char>)>::empty());
    push_node(
        &mut nodes,
        make_node(
            "footer.summary".to_owned(),
            Some("footer.root"),
            RemoteViewNodeKind::Text(view.snapshot.footer_summary()),
            p2,
        ),
    );
    let p3: Vec<(&str, &str)> = Vec::new();
    assert(props_view(p3@) =~= Seq::<(Seq<char>, Seq<char>)>::empty());
    push_node(
        &mut nodes,
        make_node(
            "footer.progress".to_owned(),
            Some("footer.root"),
            RemoteViewNodeKind::ProgressBar(ProgressBarProps { value: remaining, max_value: 100 }),
            p3,
        ),
    );
    RemoteViewTree { revision: view.revision, root_id: "footer.root".to_owned(), nodes }
}

/// The nodes of one usage card in the panel.
pub open spec fn card_nodes(c: LimitCardView) -> Seq<NodeView> {
    let section = "panel.limit."@ + c.id;
    seq![
        NodeView {
            id: section,
            parent: Some("panel.root"@),
            kind: KindView::Column,
            properties: seq![("gap"@, "4"@)],
        },
        NodeView {
            id: section + ".title"@,
            parent: Some(section),
            kind: KindView::Text(c.title),
            properties: Seq::empty(),
        },
        NodeView {
            id: section + ".value"@,
            parent: Some(section),
            kind: KindView::Text(decimal(c.remaining_percent as nat) + "% remaining"@),
            properties: Seq::empty(),
        },
        NodeView {
            id: section + ".progress"@,
            parent: Some(section),
            kind: KindView::ProgressBar(c.remaining_percent, 100),
            properties: Seq::empty(),
        },
    ] + match c.resets_at_label {
        Some(label) => seq![
            NodeView {
                id: section + ".reset"@,
                parent: Some(section),
                kind: KindView::Text("Resets "@ + label),
                properties: Seq::empty(),
            },
        ],
        None => Seq::empty(),
    }
}

/// The nodes of the cards, in order.
pub open spec fn cards_nodes(cards: Seq<LimitCardView>) -> Seq<NodeView>
    decreases cards.len(),
{
    if cards.len() == 0 {
        Seq::empty()
    } else {
        cards_nodes(cards.drop_last()) + card_nodes(cards.last())
    }
}

/// The panel: the plan line, the first five usage cards, the credits card
/// and the last error.
pub open spec fn panel_nodes(s: SnapshotView, error: Option<Seq<char>>) -> Seq<NodeView> {
    seq![
        NodeView {
            id: "panel.root"@,
            parent: None,
            kind: KindView::Column,
            properties: seq![("gap"@, "8"@)],
        },
    ] + match s.plan_type {
        Some(p) => seq![
            NodeView {
                id: "panel.plan"@,
                parent: Some("panel.root"@),
                kind: KindView::Text(plan_label(p)),
                properties: Seq::empty(),
            },
        ],
        None => Seq::empty(),
    } + cards_nodes(
        if s.usage_limits.len() <= 5 {
            s.usage_limits
        } else {
            s.usage_limits.take(5)
        },
    ) + seq![
        NodeView {
            id: "panel.credits"@,
            parent: Some("panel.root"@),
            kind: KindView::Column,
            properties: seq![("gap"@, "4"@)],
        },
        NodeView {
            id: "panel.credits.title"@,
            parent: Some("panel.credits"@),
            kind: KindView::Text("Credits remaining"@),
            properties: Seq::empty(),
        },
        NodeView {
            id: "panel.credits.balance"@,
            parent: Some("panel.credits"@),
            kind: KindView::Text(s.credits_summary.balance_label),
            properties: Seq::empty(),
        },
        NodeView {
            id: "panel.credits.detail"@,
            parent: Some("panel.credits"@),
            kind: KindView::Text(s.credits_summary.detail),
            properties: Seq::empty(),
        },
    ] + match error {
        Some(e) => seq![
            NodeView {
                id: "panel.error"@,
                parent: Some("panel.root"@),
                kind: KindView::Text(e),
                properties: Seq::empty(),
            },
        ],
        None => Seq::empty(),
    }
}

fn push_leaf(nodes: &mut Vec<RemoteViewNode>, id: String, parent: &str, kind: RemoteViewNodeKind)
    ensures
        nodes_view(final(nodes)@) == nodes_view(old(nodes)@).push(
            NodeView { id: id@, parent: Some(parent@), kind: kind_view(kind), properties: Seq::empty() },
        ),
{
    let none: Vec<(&str, &str)> = Vec::new();
    assert(props_view(none@) =~= Seq::<(Seq<char>, Seq<char>)>::empty());
    push_node(nodes, make_node(id, Some(parent), kind, none));
}

fn push_card_nodes(nodes: &mut Vec<RemoteViewNode>, card: &UsageLimitCard)
    ensures
        nodes_view(final(nodes)@) == nodes_view(old(nodes)@) + card_nodes(card@),
{
    let ghost start = nodes_view(nodes@);
    let section_id = join2("panel.limit.", card.id.as_str());
    let gap = vec![("gap", "4")];
    assert(props_view(gap@) =~= seq![("gap"@, "4"@)]);
    push_node(nodes, make_node(section_id.clone(), Some("panel.root"), RemoteViewNodeKind::Column, gap));
    push_leaf(
        nodes,
        join2(section_id.as_str(), ".title"),
        section_id.as_str(),
        RemoteViewNodeKind::Text(card.title.clone()),
    );
    let mut value = String::new();
    push_decimal(&mut value, card.remaining_percent as u64);
    value.append("% remaining");
    push_leaf(
        nodes,
        join2(section_id.as_str(), ".value"),
        section_id.as_str(),
        RemoteViewNodeKind::Text(value),
    );
    push_leaf(
        nodes,
        join2(section_id.as_str(), ".progress"),
        section_id.as_str(),
        RemoteViewNodeKind::ProgressBar(
            ProgressBarProps { value: card.remaining_percent, max_value: 100 },
        ),
    );
    match &card.resets_at_label {
        Some(label) => {
            push_leaf(
                nodes,
                join2(section_id.as_str(), ".reset"),
                section_id.as_str(),
                RemoteViewNodeKind::Text(join2("Resets ", label.as_str())),
            );
        },
        None => {},
    }
    assert(nodes_view(nodes@) =~= start + card_nodes(card@));
}

/// The panel view.
#[verifier::rlimit(60)]
pub fn render_panel_view(view: &DemoViewState) -> (r: RemoteViewTree)
    ensures
        r.revision == view.revision,
        r.root_id@ == "panel.root"@,
        nodes_view(r.nodes@) == panel_nodes(view.snapshot@, opt_view(view.sidecar_error)),
{
    let ghost s = view.snapshot@;
    let mut nodes: Vec<RemoteViewNode> = Vec::new();
    assert(nodes_view(nodes@) =~= Seq::<NodeView>::empty());
    let gap8 = vec![("gap", "8")];
    assert(props_view(gap8@) =~= seq![("gap"@, "8"@)]);
    push_node(&mut nodes, make_node("panel.root".to_owned(), None, RemoteViewNodeKind::Column, gap8));
    match view.snapshot.panel_plan_label() {
        Some(label) => push_leaf(&mut nodes, "panel.plan".to_owned(), "panel.root", RemoteViewNodeKind::Text(label)),
        None => {},
    }
    let ghost head = nodes_view(nodes@);
    let limits = &view.snapshot.usage_limits;
    let shown: usize = if limits.len() <= 5 {
        limits.len()
    } else {
        5
    };
    let ghost shown_cards = if s.usage_limits.len() <= 5 {
        s.usage_limits
    } else {
        s.usage_limits.take(5)
    };
    assert(shown_cards =~= cards_view(limits@).take(shown as int));
    for i in 0..shown
        invariant
            shown <= limits@.len(),
            s == view.snapshot@,
            limits == &view.snapshot.usage_limits,
            nodes_view(nodes@) == head + cards_nodes(cards_view(limits@).take(i as int)),
    {
        let ghost t = cards_view(limits@).take(i + 1);
        assert(t.drop_last() =~= cards_view(limits@).take(i as int));
        assert(t.last() == limits@[i as int]@);
        push_card_nodes(&mut nodes, &limits[i]);
        assert(nodes_view(nodes@) =~= head + cards_nodes(t));
    }
    let ghost mid = nodes_view(nodes@);
    let gap4 = vec![("gap", "4")];
    assert(props_view(gap4@) =~= seq![("gap"@, "4"@)]);
    push_node(&mut nodes, make_node("panel.credits".to_owned(), Some("panel.root"), RemoteViewNodeKind::Column, gap4));
    push_leaf(
        &mut nodes,
        "panel.credits.title".to_owned(),
        "panel.credits",
        RemoteViewNodeKind::Text("Credits remaining".to_owned()),
    );
    push_leaf(
        &mut nodes,
        "panel.credits.balance".to_owned(),
        "panel.credits",
        RemoteViewNodeKind::Text(view.snapshot.credits_summary.balance_label.clone()),
    );
    push_leaf(
        &mut nodes,
        "panel.credits.detail".to_owned(),
        "panel.credits",
        RemoteViewNodeKind::Text(view.snapshot.credits_summary.detail.clone()),
    );
    match &view.sidecar_error {
        Some(e) => push_leaf(&mut nodes, "panel.error".to_owned(), "panel.root", RemoteViewNodeKind::Text(e.clone())),
        None => {},
    }
    assert(nodes_view(nodes@) =~= panel_nodes(s, opt_view(view.sidecar_error)));
    RemoteViewTree { revision: view.revision, root_id: "panel.root".to_owned(), nodes }
}

/// Which contribution a view renders.
pub open spec fn known_contribution(id: Seq<char>) -> bool {
    id == "demo.panel"@ || id == "demo.titlebar"@ || id == "demo.footer"@
}

/// What answering a view event does, in order: the side effect, then
/// whether the view reloads its snapshot and renders again.
#[derive(Clone, Copy, Debug, PartialEq, Eq, Structural)]
pub enum ViewEventPlan {
    /// Refresh the usage, reload with a forced refresh, render again.
    RefreshAndRerender,
    /// Toggle the panel; nothing to render.
    TogglePanel,
    /// Start a sign-in, reload, render again.
    SignInAndRerender,
    /// Sign out, reload, render again.
    SignOutAndRerender,
    /// Reload and render again.
    Rerender,
    /// Nothing to do.
    Ignore,
}

pub open spec fn event_plan(node_id: Seq<char>, is_click: bool, s: SnapshotView) -> ViewEventPlan {
    let authenticated = s.auth_status == "authenticated"@;
    let pending = s.auth_status == "pending"@;
    if !is_click {
        ViewEventPlan::Ignore
    } else if node_id == "titlebar.sync"@ || node_id == "panel.refresh"@ {
        ViewEventPlan::RefreshAndRerender
    } else if node_id == "footer.root"@ {
        if authenticated {
            ViewEventPlan::TogglePanel
        } else if !pending {
            ViewEventPlan::SignInAndRerender
        } else {
            ViewEventPlan::Ignore
        }
    } else if node_id == "titlebar.root"@ || node_id == "titlebar.icon"@ || node_id
        == "titlebar.badge"@ || node_id == "titlebar.toggle-panel"@ {
        ViewEventPlan::TogglePanel
    } else if node_id == "titlebar.auth"@ || node_id == "footer.auth"@ || node_id == "panel.auth"@ {
        if authenticated {
            ViewEventPlan::SignOutAndRerender
        } else if !pending {
            ViewEventPlan::SignInAndRerender
        } else {
            ViewEventPlan::Rerender
        }
    } else {
        ViewEventPlan::Ignore
    }
}

/// How the extension answers a click (or another event) on a node.
pub fn plan_view_event(node_id: &str, is_click: bool, snapshot: &SidecarSnapshot) -> (r: ViewEventPlan)
    ensures
        r == event_plan(node_id@, is_click, snapshot@),
{
    let authenticated = snapshot.is_authenticated();
    let pending = snapshot.is_pending();
    if !is_click {
        ViewEventPlan::Ignore
    } else if same_text(node_id, "titlebar.sync") || same_text(node_id, "panel.refresh") {
        ViewEventPlan::RefreshAndRerender
    } else if same_text(node_id, "footer.root") {
        if authenticated {
            ViewEventPlan::TogglePanel
        } else if !pending {
            ViewEventPlan::SignInAndRerender
        } else {
            ViewEventPlan::Ignore
        }
    } else if same_text(node_id, "titlebar.root") || same_text(node_id, "titlebar.icon") || same_text(
        node_id,
        "titlebar.badge",
    ) || same_text(node_id, "titlebar.toggle-panel") {
        ViewEventPlan::TogglePanel
    } else if same_text(node_id, "titlebar.auth") || same_text(node_id, "footer.auth") || same_text(
        node_id,
        "panel.auth",
    ) {
        if authenticated {
            ViewEventPlan::SignOutAndRerender
        } else if !pending {
            ViewEventPlan::SignInAndRerender
        } else {
            ViewEventPlan::Rerender
        }
    } else {
        ViewEventPlan::Ignore
    }
}

/// Whether `id` names a contribution the extension renders.
pub fn is_known_contribution(id: &str) -> (r: bool)
    ensures
        r == known_contribution(id@),
{
    same_text(id, "demo.panel") || same_text(id, "demo.titlebar") || same_text(id, "demo.footer")
}

/// Whether `t` is what a view of `contribution` shows at `revision` for the
/// snapshot `s` and the load error `error`; never for an unknown
/// contribution.
pub open spec fn shows(
    contribution: Seq<char>,
    revision: u64,
    s: SnapshotView,
    error: Option<Seq<char>>,
    t: RemoteViewTree,
) -> bool {
    &&& t.revision == revision
    &&& if contribution == "demo.titlebar"@ {
        t.root_id@ == "titlebar.root"@ && nodes_view(t.nodes@) == titlebar_nodes(s)
    } else if contribution == "demo.footer"@ {
        t.root_id@ == "footer.root"@ && nodes_view(t.nodes@) == footer_nodes(s, error is Some)
    } else if contribution == "demo.panel"@ {
        t.root_id@ == "panel.root"@ && nodes_view(t.nodes@) == panel_nodes(s, error)
    } else {
        false
    }
}

pub open spec fn unknown_instance_text(id: u64) -> Seq<char> {
    "unknown view instance `"@ + decimal(id as nat) + "`"@
}

fn unknown_instance_message(id: u64) -> (r: String)
    ensures
        r@ == unknown_instance_text(id),
{
    let mut r = "unknown view instance `".to_owned();
    push_decimal(&mut r, id);
    r.append("`");
    r
}

/// The extension's open views, each under its instance id, and the id the
/// next view gets.
#[derive(Debug)]
pub struct RemoteUiExampleExtension {
    pub next_instance_id: u64,
    pub views: Vec<(u64, DemoViewState)>,
}

/// Whether a view with instance id `id` is open.
pub open spec fn has_instance(views: Seq<(u64, DemoViewState)>, id: u64) -> bool {
    exists|i: int| 0 <= i < views.len() && views[i].0 == id
}

impl RemoteUiExampleExtension {
    /// Instance ids are distinct and below the next one handed out.
    pub open spec fn wf(&self) -> bool {
        &&& forall|i: int, j: int| 0 <= i < j < self.views@.len() ==> self.views@[i].0 != self.views@[j].0
        &&& forall|i: int| 0 <= i < self.views@.len() ==> self.views@[i].0 < self.next_instance_id
    }

    /// No view open; the first view gets id 1.
    pub fn new() -> (r: Self)
        ensures
            r.wf(),
            r.next_instance_id == 1,
            r.views@.len() == 0,
    {
        RemoteUiExampleExtension { next_instance_id: 1, views: Vec::new() }
    }

    fn find_view(&self, instance_id: u64) -> (r: Option<usize>)
        ensures
            match r {
                Some(i) => i < self.views@.len() && self.views@[i as int].0 == instance_id,
                None => !has_instance(self.views@, instance_id),
            },
    {
        let mut i: usize = 0;
        while i < self.views.len()
            invariant
                i <= self.views@.len(),
                forall|j: int| 0 <= j < i ==> self.views@[j].0 != instance_id,
            decreases self.views@.len() - i,
        {
            if self.views[i].0 == instance_id {
                return Some(i);
            }
            i = i + 1;
        }
        None
    }

    /// Whether a view with this instance id is open.
    pub fn has_view(&self, instance_id: u64) -> (r: bool)
        ensures
            r == has_instance(self.views@, instance_id),
    {
        self.find_view(instance_id).is_some()
    }

    /// Opens a view of a known contribution, with the snapshot loaded for
    /// it, at revision 1 under the next instance id; refuses any other
    /// contribution.
    pub fn open_view(&mut self, contribution_id: String, snapshot: SidecarSnapshot, sidecar_error: Option<String>) -> (r:
        Result<u64, String>)
        requires
            old(self).wf(),
            old(self).next_instance_id < u64::MAX,
        ensures
            final(self).wf(),
            known_contribution(contribution_id@) ==> {
                &&& r == Ok::<u64, String>(old(self).next_instance_id)
                &&& final(self).next_instance_id == old(self).next_instance_id + 1
                &&& final(self).views@ == old(self).views@.push(
                    (
                        old(self).next_instance_id,
                        DemoViewState { contribution_id, revision: 1, snapshot, sidecar_error },
                    ),
                )
            },
            !known_contribution(contribution_id@) ==> (*final(self) == *old(self) && (r matches Err(m) && m@
                == "unknown contribution `"@ + contribution_id@ + "`"@)),
    {
        if !is_known_contribution(contribution_id.as_str()) {
            return Err(join3("unknown contribution `", contribution_id.as_str(), "`"));
        }
        let instance_id = self.next_instance_id;
        self.next_instance_id = self.next_instance_id + 1;
        self.views.push((instance_id, DemoViewState { contribution_id, revision: 1, snapshot, sidecar_error }));
        Ok(instance_id)
    }

    /// Renders an open view after taking in the snapshot just loaded for it:
    /// the view moves to its next revision and shows its contribution.
    pub fn render_view(&mut self, instance_id: u64, snapshot: SidecarSnapshot, sidecar_error: Option<String>) -> (r:
        Result<RemoteViewTree, String>)
        requires
            old(self).wf(),
        ensures
            final(self).wf(),
            final(self).next_instance_id == old(self).next_instance_id,
            !has_instance(old(self).views@, instance_id) ==> (*final(self) == *old(self) && (r matches Err(m) && m@
                == unknown_instance_text(instance_id))),
            forall|i: int|
                #![trigger old(self).views@[i]]
                0 <= i < old(self).views@.len() && old(self).views@[i].0 == instance_id ==> {
                    let before = old(self).views@[i].1;
                    let after = DemoViewState {
                        contribution_id: before.contribution_id,
                        revision: crate::codex_usage::bump(before.revision),
                        snapshot,
                        sidecar_error,
                    };
                    &&& final(self).views@ == old(self).views@.update(i, (instance_id, after))
                    &&& known_contribution(before.contribution_id@) ==> (r matches Ok(t) && shows(
                        before.contribution_id@,
                        after.revision,
                        snapshot@,
                        opt_view(sidecar_error),
                        t,
                    ))
                    &&& !known_contribution(before.contribution_id@) ==> (r matches Err(m) && m@
                        == "unknown view `"@ + before.contribution_id@ + "`"@)
                },
    {
        let i = match self.find_view(instance_id) {
            Some(i) => i,
            None => return Err(unknown_instance_message(instance_id)),
        };
        let ghost old_views = self.views@;
        let (id, mut view) = self.views.remove(i);
        sync_view(&mut view, snapshot, sidecar_error);
        let result = if same_text(view.contribution_id.as_str(), "demo.titlebar") {
            Ok(render_titlebar_view(&view))
        } else if same_text(view.contribution_id.as_str(), "demo.footer") {
            Ok(render_footer_view(&view))
        } else if same_text(view.contribution_id.as_str(), "demo.panel") {
            Ok(render_panel_view(&view))
        } else {
            Err(join3("unknown view `", view.contribution_id.as_str(), "`"))
        };
        self.views.insert(i, (id, view));
        proof {
            assert(self.views@ =~= old_views.update(i as int, (id, view)));
        }
        result
    }

    /// How the view answers an event, or the unknown instance's error.
    pub fn view_event_plan(&self, instance_id: u64, node_id: &str, is_click: bool) -> (r: Result<
        ViewEventPlan,
        String,
    >)
        requires
            self.wf(),
        ensures
            !has_instance(self.views@, instance_id) ==> (r matches Err(m) && m@ == unknown_instance_text(
                instance_id,
            )),
            forall|i: int|
                #![trigger self.views@[i]]
                0 <= i < self.views@.len() && self.views@[i].0 == instance_id ==> r == Ok::<
                    ViewEventPlan,
                    String,
                >(event_plan(node_id@, is_click, self.views@[i].1.snapshot@)),
    {
        match self.find_view(instance_id) {
            Some(i) => Ok(plan_view_event(node_id, is_click, &self.views[i].1.snapshot)),
            None => Err(unknown_instance_message(instance_id)),
        }
    }

    /// Closes the view with this instance id, if one is open.
    pub fn close_view(&mut self, instance_id: u64)
        requires
            old(self).wf(),
        ensures
            final(self).wf(),
            final(self).next_instance_id == old(self).next_instance_id,
            !has_instance(old(self).views@, instance_id) ==> final(self).views@ == old(self).views@,
            forall|i: int|
                #![trigger old(self).views@[i]]
                0 <= i < old(self).views@.len() && old(self).views@[i].0 == instance_id ==> final(self).views@
                    == old(self).views@.remove(i),
    {
        match self.find_view(instance_id) {
            Some(i) => {
                self.views.remove(i);
            },
            None => {},
        }
    }
}

/// What a command of the extension does.
#[derive(Debug, PartialEq, Eq)]
pub enum CommandPlan {
    /// Toggle the extension's panel.
    TogglePanel,
    /// Refresh the usage, then show the toast.
    RefreshUsage { toast: String },
    /// Start a sign-in, then show the toast.
    BeginLogin { toast: String },
    /// Sign out, then show the toast.
    Logout { toast: String },
    /// Open the URL in the browser.
    OpenUrl(String),
    /// Refuse the command with the message.
    Unknown(String),
}

/// How the extension answers a command.
pub fn plan_command(command_id: &str) -> (r: CommandPlan)
    ensures
        if command_id@ == "demo-toggle-panel"@ {
            r is TogglePanel
        } else if command_id@ == "demo-refresh"@ {
            r matches CommandPlan::RefreshUsage { toast } && toast@ == "Codex usage refreshed"@
        } else if command_id@ == "demo-begin-login"@ {
            r matches CommandPlan::BeginLogin { toast } && toast@ == "Opened ChatGPT sign-in in your browser"@
        } else if command_id@ == "demo-logout"@ {
            r matches CommandPlan::Logout { toast } && toast@ == "Cleared the saved ChatGPT session"@
        } else if command_id@ == "demo-open-url"@ {
            r matches CommandPlan::OpenUrl(url) && url@ == "https://chatgpt.com"@
        } else {
            r matches CommandPlan::Unknown(m) && m@ == "unknown command `"@ + command_id@ + "`"@
        },
{
    if same_text(command_id, "demo-toggle-panel") {
        CommandPlan::TogglePanel
    } else if same_text(command_id, "demo-refresh") {
        CommandPlan::RefreshUsage { toast: "Codex usage refreshed".to_owned() }
    } else if same_text(command_id, "demo-begin-login") {
        CommandPlan::BeginLogin { toast: "Opened ChatGPT sign-in in your browser".to_owned() }
    } else if same_text(command_id, "demo-logout") {
        CommandPlan::Logout { toast: "Cleared the saved ChatGPT session".to_owned() }
    } else if same_text(command_id, "demo-open-url") {
        CommandPlan::OpenUrl("https://chatgpt.com".to_owned())
    } else {
        CommandPlan::Unknown(join3("unknown command `", command_id, "`"))
    }
}

/// Member `key` as a non-negative integer, capped at `u32::MAX`.
pub open spec fn capped_u32_member(ms: Seq<JsonMember>, key: Seq<char>) -> Option<u32> {
    match u64_of(member(ms, key)) {
        Some(n) => Some(
            if n <= u32::MAX {
                n as u32
            } else {
                u32::MAX
            },
        ),
        None => None,
    }
}

pub open spec fn u64_member(ms: Seq<JsonMember>, key: Seq<char>) -> Option<u64> {
    u64_of(member(ms, key))
}

fn member_u64(object: &Vec<JsonMember>, field_name: &str) -> (r: Option<u64>)
    ensures
        r == u64_member(object@, field_name@),
{
    match get_member(object, field_name) {
        Some(JsonValue::Number(n)) => n.as_u64,
        _ => None,
    }
}

fn member_u32(object: &Vec<JsonMember>, field_name: &str) -> (r: Option<u32>)
    ensures
        r == capped_u32_member(object@, field_name@),
{
    match member_u64(object, field_name) {
        Some(n) => Some(
            if n <= 4_294_967_295u64 {
                n as u32
            } else {
                4_294_967_295u32
            },
        ),
        None => None,
    }
}

fn required_text(object: &Vec<JsonMember>, field_name: &str) -> (r: Result<String, String>)
    ensures
        match r {
            Ok(t) => text_member(object@, field_name@) == Some(t@),
            Err(m) => text_member(object@, field_name@) is None && m@ == "sidecar snapshot is missing `"@
                + field_name@ + "`"@,
        },
{
    match optional_string(object, field_name) {
        Some(t) => Ok(t),
        None => Err(join3("sidecar snapshot is missing `", field_name, "`")),
    }
}

pub open spec fn card_from_json(item: JsonValue) -> Option<LimitCardView> {
    match item {
        JsonValue::Object(ms) => match (text_member(ms@, "id"@), text_member(ms@, "title"@)) {
            (Some(id), Some(title)) => Some(
                LimitCardView {
                    id,
                    title,
                    remaining_percent: cap100(u32_or_zero(capped_u32_member(ms@, "remaining_percent"@))),
                    resets_at_label: text_member(ms@, "resets_at_label"@),
                },
            ),
            _ => None,
        },
        _ => None,
    }
}

pub open spec fn cards_from_json(items: Seq<JsonValue>) -> Seq<LimitCardView>
    decreases items.len(),
{
    if items.len() == 0 {
        Seq::empty()
    } else {
        let rest = cards_from_json(items.drop_last());
        match card_from_json(items.last()) {
            Some(c) => rest.push(c),
            None => rest,
        }
    }
}

pub open spec fn credits_from_json(v: Option<JsonValue>) -> CreditsView {
    match v {
        Some(JsonValue::Object(ms)) => CreditsView {
            balance_label: text_or(text_member(ms@, "balance_label"@), "0"@),
            detail: text_or(text_member(ms@, "detail"@), default_credits_detail()),
        },
        _ => CreditsView { balance_label: "0"@, detail: default_credits_detail() },
    }
}

/// A stored snapshot as the extension reads it.
#[verifier::opaque]
pub open spec fn snapshot_from_json(v: JsonValue) -> Result<SnapshotView, Seq<char>> {
    match v {
        JsonValue::Object(ms) => match text_member(ms@, "auth_status"@) {
            Some(auth_status) => Ok(
                SnapshotView {
                    auth_status,
                    plan_type: text_member(ms@, "plan_type"@),
                    primary_used_percent: cap100(
                        u32_or_zero(capped_u32_member(ms@, "primary_used_percent"@)),
                    ),
                    usage_limits: match member(ms@, "usage_limits"@) {
                        Some(JsonValue::Array(items)) => cards_from_json(items@),
                        _ => Seq::empty(),
                    },
                    credits_summary: credits_from_json(member(ms@, "credits_summary"@)),
                },
            ),
            None => Err("sidecar snapshot is missing `"@ + "auth_status"@ + "`"@),
        },
        _ => Err("sidecar snapshot must be a JSON object"@),
    }
}

fn parse_card(item: &JsonValue) -> (r: Option<UsageLimitCard>)
    ensures
        match r {
            Some(c) => card_from_json(*item) == Some(c@),
            None => card_from_json(*item) is None,
        },
{
    match item {
        JsonValue::Object(ms) => {
            let id = match optional_string(ms, "id") {
                Some(t) => t,
                None => return None,
            };
            let title = match optional_string(ms, "title") {
                Some(t) => t,
                None => return None,
            };
            let p = match member_u32(ms, "remaining_percent") {
                Some(n) => n,
                None => 0,
            };
            Some(
                UsageLimitCard {
                    id,
                    title,
                    remaining_percent: if p <= 100 {
                        p
                    } else {
                        100
                    },
                    resets_at_label: optional_string(ms, "resets_at_label"),
                },
            )
        },
        _ => None,
    }
}

fn parse_cards(items: &Vec<JsonValue>) -> (r: Vec<UsageLimitCard>)
    ensures
        cards_view(r@) == cards_from_json(items@),
{
    let mut out: Vec<UsageLimitCard> = Vec::new();
    assert(cards_view(out@) =~= Seq::<LimitCardView>::empty());
    for i in 0..items.len()
        invariant
            cards_view(out@) == cards_from_json(items@.take(i as int)),
    {
        assert(items@.take(i + 1).drop_last() == items@.take(i as int));
        assert(items@.take(i + 1).last() == items@[i as int]);
        match parse_card(&items[i]) {
            Some(c) => {
                let ghost before = out@;
                out.push(c);
                assert(cards_view(out@) =~= cards_view(before).push(c@));
            },
            None => {},
        }
    }
    assert(items@.take(items@.len() as int) == items@);
    out
}

/// Reads a stored snapshot.
pub fn parse_sidecar_snapshot(value: &JsonValue) -> (r: Result<SidecarSnapshot, String>)
    ensures
        match r {
            Ok(s) => snapshot_from_json(*value) == Ok::<SnapshotView, Seq<char>>(s@),
            Err(m) => snapshot_from_json(*value) == Err::<SnapshotView, Seq<char>>(m@),
        },
{
    reveal(snapshot_from_json);
    let ms = match value {
        JsonValue::Object(ms) => ms,
        _ => return Err("sidecar snapshot must be a JSON object".to_owned()),
    };
    let auth_status = match required_text(ms, "auth_status") {
        Ok(t) => t,
        Err(m) => return Err(m),
    };
    let used = match member_u32(ms, "primary_used_percent") {
        Some(n) => n,
        None => 0,
    };
    let usage_limits = match get_member(ms, "usage_limits") {
        Some(JsonValue::Array(items)) => parse_cards(items),
        _ => {
            let out: Vec<UsageLimitCard> = Vec::new();
            assert(cards_view(out@) =~= Seq::<LimitCardView>::empty());
            out
        },
    };
    let credits_summary = match get_member(ms, "credits_summary") {
        Some(JsonValue::Object(cs)) => CreditsSummary {
            balance_label: match optional_string(cs, "balance_label") {
                Some(t) => t,
                None => "0".to_owned(),
            },
            detail: match optional_string(cs, "detail") {
                Some(t) => t,
                None => "Use credits to send messages beyond your plan limit.".to_owned(),
            },
        },
        _ => CreditsSummary {
            balance_label: "0".to_owned(),
            detail: "Use credits to send messages beyond your plan limit.".to_owned(),
        },
    };
    Ok(
        SidecarSnapshot {
            auth_status,
            plan_type: optional_string(ms, "plan_type"),
            primary_used_percent: if used <= 100 {
                used
            } else {
                100
            },
            usage_limits,
            credits_summary,
        },
    )
}

/// A stored auth state as the extension reads it; a `last_snapshot` member
/// must hold a snapshot (even `null` fails).
#[verifier::opaque]
pub open spec fn state_from_json(v: JsonValue) -> Result<AuthStateView, Seq<char>> {
    match v {
        JsonValue::Object(ms) => {
            let snapshot: Result<Option<SnapshotView>, Seq<char>> = match member(
                ms@,
                "last_snapshot"@,
            ) {
                None => Ok(None),
                Some(x) => match snapshot_from_json(x) {
                    Ok(s) => Ok(Some(s)),
                    Err(e) => Err(e),
                },
            };
            match snapshot {
                Ok(last_snapshot) => Ok(
                    AuthStateView {
                        auth_status: crate::codex_usage::inferred_status(ms@),
                        access_token: text_member(ms@, "access_token"@),
                        refresh_token: text_member(ms@, "refresh_token"@),
                        account_id: text_member(ms@, "account_id"@),
                        expires_at: u64_or_zero(u64_member(ms@, "expires_at"@)),
                        last_refresh_at: u64_or_zero(u64_member(ms@, "last_refresh_at"@)),
                        last_snapshot,
                        last_fetched_at: u64_or_zero(u64_member(ms@, "last_fetched_at"@)),
                        last_error: text_member(ms@, "last_error"@),
                    },
                ),
                Err(e) => Err(e),
            }
        },
        _ => Err("persisted auth state must be a JSON object"@),
    }
}

/// Reads the shared auth file.
pub fn parse_persisted_auth_state(value: &JsonValue) -> (r: Result<PersistedAuthState, String>)
    ensures
        match r {
            Ok(s) => state_from_json(*value) == Ok::<AuthStateView, Seq<char>>(s@),
            Err(m) => state_from_json(*value) == Err::<AuthStateView, Seq<char>>(m@),
        },
{
    reveal(state_from_json);
    let ms = match value {
        JsonValue::Object(ms) => ms,
        _ => return Err("persisted auth state must be a JSON object".to_owned()),
    };
    let access_token = optional_string(ms, "access_token");
    let refresh_token = optional_string(ms, "refresh_token");
    let auth_status = match optional_string(ms, "auth_status") {
        Some(a) => a,
        None => if refresh_token.is_some() {
            "authenticated".to_owned()
        } else if optional_string(ms, "last_error").is_some() {
            "error".to_owned()
        } else {
            "signed-out".to_owned()
        },
    };
    let last_snapshot = match get_member(ms, "last_snapshot") {
        None => None,
        Some(x) => match parse_sidecar_snapshot(x) {
            Ok(s) => Some(s),
            Err(e) => return Err(e),
        },
    };
    Ok(
        PersistedAuthState {
            auth_status,
            access_token,
            refresh_token,
            account_id: optional_string(ms, "account_id"),
            expires_at: match member_u64(ms, "expires_at") {
                Some(n) => n,
                None => 0,
            },
            last_refresh_at: match member_u64(ms, "last_refresh_at") {
                Some(n) => n,
                None => 0,
            },
            last_snapshot,
            last_fetched_at: match member_u64(ms, "last_fetched_at") {
                Some(n) => n,
                None => 0,
            },
            last_error: optional_string(ms, "last_error"),
        },
    )
}

pub open spec fn card_keys() -> Seq<Seq<char>> {
    seq!["id"@, "remaining_percent"@, "resets_at_label"@, "title"@]
}

pub open spec fn snapshot_keys() -> Seq<Seq<char>> {
    seq!["auth_status"@, "credits_summary"@, "plan_type"@, "primary_used_percent"@, "usage_limits"@]
}

pub open spec fn state_keys() -> Seq<Seq<char>> {
    seq![
        "access_token"@,
        "account_id"@,
        "auth_status"@,
        "expires_at"@,
        "last_error"@,
        "last_fetched_at"@,
        "last_refresh_at"@,
        "last_snapshot"@,
        "refresh_token"@,
    ]
}

/// `v` stores the card `c`, every key present.
pub open spec fn encodes_card(v: JsonValue, c: LimitCardView) -> bool {
    &&& v matches JsonValue::Object(ms)
    &&& keys_of(ms@) == card_keys()
    &&& is_text(ms@[0].value, c.id)
    &&& is_count(ms@[1].value, c.remaining_percent as u64)
    &&& is_opt_text(ms@[2].value, c.resets_at_label)
    &&& is_text(ms@[3].value, c.title)
}

/// `v` stores the snapshot `s`, every key present.
#[verifier::opaque]
pub open spec fn encodes_snapshot(v: JsonValue, s: SnapshotView) -> bool {
    &&& v matches JsonValue::Object(ms)
    &&& keys_of(ms@) == snapshot_keys()
    &&& is_text(ms@[0].value, s.auth_status)
    &&& ms@[1].value matches JsonValue::Object(cs)
    &&& keys_of(cs@) == seq!["balance_label"@, "detail"@]
    &&& is_text(cs@[0].value, s.credits_summary.balance_label)
    &&& is_text(cs@[1].value, s.credits_summary.detail)
    &&& is_opt_text(ms@[2].value, s.plan_type)
    &&& is_count(ms@[3].value, s.primary_used_percent as u64)
    &&& ms@[4].value matches JsonValue::Array(items)
    &&& items@.len() == s.usage_limits.len()
    &&& forall|i: int| 0 <= i < items@.len() ==> encodes_card(#[trigger] items@[i], s.usage_limits[i])
}

/// `v` is what the extension saves for `s`: every field, tokens included,
/// and `null` for a missing snapshot.
#[verifier::opaque]
pub open spec fn encodes_state(v: JsonValue, s: AuthStateView) -> bool {
    &&& v matches JsonValue::Object(ms)
    &&& keys_of(ms@) == state_keys()
    &&& is_opt_text(ms@[0].value, s.access_token)
    &&& is_opt_text(ms@[1].value, s.account_id)
    &&& is_text(ms@[2].value, s.auth_status)
    &&& is_count(ms@[3].value, s.expires_at)
    &&& is_opt_text(ms@[4].value, s.last_error)
    &&& is_count(ms@[5].value, s.last_fetched_at)
    &&& is_count(ms@[6].value, s.last_refresh_at)
    &&& match s.last_snapshot {
        Some(x) => encodes_snapshot(ms@[7].value, x),
        None => ms@[7].value is Null,
    }
    &&& is_opt_text(ms@[8].value, s.refresh_token)
}

fn push_member(ms: &mut Vec<JsonMember>, key: &str, value: JsonValue)
    ensures
        final(ms)@ == old(ms)@.push(final(ms)@.last()),
        final(ms)@.last().key@ == key@,
        final(ms)@.last().value == value,
        keys_of(final(ms)@) == keys_of(old(ms)@).push(key@),
{
    let m = json_member(key, value);
    assert(keys_of(ms@.push(m)) =~= keys_of(ms@).push(m.key@));
    ms.push(m);
}

fn card_to_json(card: &UsageLimitCard) -> (r: JsonValue)
    ensures
        encodes_card(r, card@),
{
    let mut ms: Vec<JsonMember> = Vec::new();
    assert(keys_of(ms@) =~= Seq::<Seq<char>>::empty());
    push_member(&mut ms, "id", json_text(card.id.clone()));
    push_member(&mut ms, "remaining_percent", json_u64(card.remaining_percent as u64));
    push_member(&mut ms, "resets_at_label", json_opt_text(copy_opt(&card.resets_at_label)));
    push_member(&mut ms, "title", json_text(card.title.clone()));
    assert(keys_of(ms@) =~= card_keys());
    JsonValue::Object(ms)
}

/// The snapshot as the extension saves it.
pub fn sidecar_snapshot_to_json(snapshot: &SidecarSnapshot) -> (r: JsonValue)
    ensures
        encodes_snapshot(r, snapshot@),
{
    reveal(encodes_snapshot);
    let ghost s = snapshot@;
    let mut cs: Vec<JsonMember> = Vec::new();
    assert(keys_of(cs@) =~= Seq::<Seq<char>>::empty());
    push_member(&mut cs, "balance_label", json_text(snapshot.credits_summary.balance_label.clone()));
    push_member(&mut cs, "detail", json_text(snapshot.credits_summary.detail.clone()));
    assert(keys_of(cs@) =~= seq!["balance_label"@, "detail"@]);
    let mut items: Vec<JsonValue> = Vec::new();
    for i in 0..snapshot.usage_limits.len()
        invariant
            s == snapshot@,
            items@.len() == i,
            forall|k: int| 0 <= k < i ==> encodes_card(#[trigger] items@[k], s.usage_limits[k]),
    {
        items.push(card_to_json(&snapshot.usage_limits[i]));
    }
    let mut ms: Vec<JsonMember> = Vec::new();
    assert(keys_of(ms@) =~= Seq::<Seq<char>>::empty());
    push_member(&mut ms, "auth_status", json_text(snapshot.auth_status.clone()));
    push_member(&mut ms, "credits_summary", JsonValue::Object(cs));
    push_member(&mut ms, "plan_type", json_opt_text(copy_opt(&snapshot.plan_type)));
    push_member(&mut ms, "primary_used_percent", json_u64(snapshot.primary_used_percent as u64));
    push_member(&mut ms, "usage_limits", JsonValue::Array(items));
    assert(keys_of(ms@) =~= snapshot_keys());
    JsonValue::Object(ms)
}

/// The auth file's content for `state`.
pub fn persisted_auth_state_to_json(state: &PersistedAuthState) -> (r: JsonValue)
    ensures
        encodes_state(r, state@),
{
    reveal(encodes_state);
    let mut ms: Vec<JsonMember> = Vec::new();
    assert(keys_of(ms@) =~= Seq::<Seq<char>>::empty());
    push_member(&mut ms, "access_token", json_opt_text(copy_opt(&state.access_token)));
    push_member(&mut ms, "account_id", json_opt_text(copy_opt(&state.account_id)));
    push_member(&mut ms, "auth_status", json_text(state.auth_status.clone()));
    push_member(&mut ms, "expires_at", json_u64(state.expires_at));
    push_member(&mut ms, "last_error", json_opt_text(copy_opt(&state.last_error)));
    push_member(&mut ms, "last_fetched_at", json_u64(state.last_fetched_at));
    push_member(&mut ms, "last_refresh_at", json_u64(state.last_refresh_at));
    let snapshot = match &state.last_snapshot {
        Some(x) => sidecar_snapshot_to_json(x),
        None => JsonValue::Null,
    };
    push_member(&mut ms, "last_snapshot", snapshot);
    push_member(&mut ms, "refresh_token", json_opt_text(copy_opt(&state.refresh_token)));
    assert(keys_of(ms@) =~= state_keys());
    JsonValue::Object(ms)
}

proof fn lemma_card_keys_distinct()
    ensures
        distinct(card_keys()),
{
    reveal_strlit("id");
    reveal_strlit("remaining_percent");
    reveal_strlit("resets_at_label");
    reveal_strlit("title");
    let keys = card_keys();
    assert("id"@.len() == 2 && "remaining_percent"@.len() == 17 && "resets_at_label"@.len() == 15
        && "title"@.len() == 5);
    assert forall|i: int, j: int| 0 <= i < j < keys.len() implies keys[i] != keys[j] by {
        assert(keys[i].len() != keys[j].len());
    }
}

proof fn lemma_snapshot_keys_distinct()
    ensures
        distinct(snapshot_keys()),
        distinct(seq!["balance_label"@, "detail"@]),
{
    reveal_strlit("auth_status");
    reveal_strlit("credits_summary");
    reveal_strlit("plan_type");
    reveal_strlit("primary_used_percent");
    reveal_strlit("usage_limits");
    reveal_strlit("balance_label");
    reveal_strlit("detail");
    let keys = snapshot_keys();
    assert("auth_status"@.len() == 11 && "credits_summary"@.len() == 15 && "plan_type"@.len() == 9
        && "primary_used_percent"@.len() == 20 && "usage_limits"@.len() == 12);
    assert forall|i: int, j: int| 0 <= i < j < keys.len() implies keys[i] != keys[j] by {
        assert(keys[i].len() != keys[j].len());
    }
    let ck = seq!["balance_label"@, "detail"@];
    assert(ck[0].len() != ck[1].len());
}

proof fn lemma_state_keys_distinct()
    ensures
        distinct(state_keys()),
{
    reveal_strlit("access_token");
    reveal_strlit("account_id");
    reveal_strlit("auth_status");
    reveal_strlit("expires_at");
    reveal_strlit("last_error");
    reveal_strlit("last_fetched_at");
    reveal_strlit("last_refresh_at");
    reveal_strlit("last_snapshot");
    reveal_strlit("refresh_token");
    let keys = state_keys();
    assert("access_token"@.len() == 12 && "account_id"@.len() == 10 && "auth_status"@.len() == 11
        && "expires_at"@.len() == 10 && "last_error"@.len() == 10 && "last_fetched_at"@.len() == 15
        && "last_refresh_at"@.len() == 15 && "last_snapshot"@.len() == 13 && "refresh_token"@.len()
        == 13);
    assert("account_id"@[0] != "expires_at"@[0]);
    assert("account_id"@[0] != "last_error"@[0]);
    assert("expires_at"@[0] != "last_error"@[0]);
    assert("last_fetched_at"@[5] != "last_refresh_at"@[5]);
    assert("last_snapshot"@[0] != "refresh_token"@[0]);
    assert forall|i: int, j: int| 0 <= i < j < keys.len() implies keys[i] != keys[j] by {
        if keys[i].len() == keys[j].len() {
            if keys[i].len() == 15 {
                assert(keys[i][5] != keys[j][5]);
            } else {
                assert(keys[i][0] != keys[j][0]);
            }
        }
    }
}

/// Each member of an object with the given distinct keys is found by its key.
proof fn lemma_members_found(ms: Seq<JsonMember>, keys: Seq<Seq<char>>)
    requires
        keys_of(ms) == keys,
        distinct(keys),
    ensures
        forall|k: int| 0 <= k < keys.len() ==> member(ms, #[trigger] keys[k]) == Some(ms[k].value),
{
    assert forall|k: int| 0 <= k < keys.len() implies member(ms, #[trigger] keys[k]) == Some(ms[k].value) by {
        assert(keys_of(ms)[k] == ms[k].key@);
        lemma_member_of_distinct(ms, k);
    }
}

proof fn lemma_card_round_trip(v: JsonValue, c: LimitCardView)
    requires
        encodes_card(v, c),
        c.remaining_percent <= 100,
    ensures
        card_from_json(v) == Some(c),
{
    let ms = v->Object_0@;
    lemma_card_keys_distinct();
    lemma_members_found(ms, card_keys());
    assert(member(ms, "id"@) == Some(ms[0].value)) by { assert(card_keys()[0] == "id"@); }
    assert(member(ms, "remaining_percent"@) == Some(ms[1].value)) by { assert(card_keys()[1] == "remaining_percent"@); }
    assert(member(ms, "resets_at_label"@) == Some(ms[2].value)) by { assert(card_keys()[2] == "resets_at_label"@); }
    assert(member(ms, "title"@) == Some(ms[3].value)) by { assert(card_keys()[3] == "title"@); }
}

proof fn lemma_cards_round_trip(items: Seq<JsonValue>, cards: Seq<LimitCardView>)
    requires
        items.len() == cards.len(),
        forall|i: int| 0 <= i < items.len() ==> encodes_card(#[trigger] items[i], cards[i]),
        forall|i: int| 0 <= i < cards.len() ==> #[trigger] cards[i].remaining_percent <= 100,
    ensures
        cards_from_json(items) == cards,
    decreases items.len(),
{
    if items.len() > 0 {
        let n = items.len() - 1;
        assert(encodes_card(items[n], cards[n]));
        assert(cards[n].remaining_percent <= 100);
        lemma_card_round_trip(items[n], cards[n]);
        let a = items.drop_last();
        let b = cards.drop_last();
        assert forall|i: int| 0 <= i < a.len() implies encodes_card(#[trigger] a[i], b[i]) by {
            assert(a[i] == items[i] && b[i] == cards[i]);
        }
        assert forall|i: int| 0 <= i < b.len() implies #[trigger] b[i].remaining_percent <= 100 by {
            assert(b[i] == cards[i]);
        }
        lemma_cards_round_trip(a, b);
        assert(cards == b.push(cards[n]));
    } else {
        assert(cards =~= Seq::<LimitCardView>::empty());
    }
}

pub open spec fn percents_in_range(x: SnapshotView) -> bool {
    &&& x.primary_used_percent <= 100
    &&& forall|i: int| 0 <= i < x.usage_limits.len() ==> #[trigger] x.usage_limits[i].remaining_percent
        <= 100
}

proof fn lemma_snapshot_round_trip(v: JsonValue, x: SnapshotView)
    requires
        encodes_snapshot(v, x),
        percents_in_range(x),
    ensures
        snapshot_from_json(v) == Ok::<SnapshotView, Seq<char>>(x),
        v is Object,
{
    reveal(encodes_snapshot);
    reveal(snapshot_from_json);
    let ms = v->Object_0@;
    let cs = ms[1].value->Object_0@;
    lemma_snapshot_keys_distinct();
    lemma_members_found(ms, snapshot_keys());
    lemma_members_found(cs, seq!["balance_label"@, "detail"@]);
    assert(member(ms, "auth_status"@) == Some(ms[0].value)) by { assert(snapshot_keys()[0] == "auth_status"@); }
    assert(member(ms, "credits_summary"@) == Some(ms[1].value)) by { assert(snapshot_keys()[1] == "credits_summary"@); }
    assert(member(ms, "plan_type"@) == Some(ms[2].value)) by { assert(snapshot_keys()[2] == "plan_type"@); }
    assert(member(ms, "primary_used_percent"@) == Some(ms[3].value)) by { assert(snapshot_keys()[3] == "primary_used_percent"@); }
    assert(member(ms, "usage_limits"@) == Some(ms[4].value)) by { assert(snapshot_keys()[4] == "usage_limits"@); }
    assert(member(cs, "balance_label"@) == Some(cs[0].value)) by { assert(seq!["balance_label"@, "detail"@][0] == "balance_label"@); }
    assert(member(cs, "detail"@) == Some(cs[1].value)) by { assert(seq!["balance_label"@, "detail"@][1] == "detail"@); }
    let items = ms[4].value->Array_0@;
    assert forall|i: int| 0 <= i < x.usage_limits.len() implies #[trigger] x.usage_limits[i].remaining_percent
        <= 100 by {}
    lemma_cards_round_trip(items, x.usage_limits);
}

/// Law: the extension reads back what it saves, provided a snapshot was
/// saved and its percentages are within `0..=100`; a state saved without a
/// snapshot stores `null` there, which reading then refuses.
pub proof fn lemma_state_round_trip(v: JsonValue, s: AuthStateView)
    requires
        encodes_state(v, s),
        s.last_snapshot matches Some(x) ==> percents_in_range(x),
    ensures
        s.last_snapshot is Some ==> state_from_json(v) == Ok::<AuthStateView, Seq<char>>(s),
        s.last_snapshot is None ==> state_from_json(v) == Err::<AuthStateView, Seq<char>>(
            "sidecar snapshot must be a JSON object"@,
        ),
{
    reveal(encodes_state);
    reveal(state_from_json);
    reveal(snapshot_from_json);
    let ms = v->Object_0@;
    lemma_state_keys_distinct();
    lemma_members_found(ms, state_keys());
    assert(member(ms, "access_token"@) == Some(ms[0].value)) by { assert(state_keys()[0] == "access_token"@); }
    assert(member(ms, "account_id"@) == Some(ms[1].value)) by { assert(state_keys()[1] == "account_id"@); }
    assert(member(ms, "auth_status"@) == Some(ms[2].value)) by { assert(state_keys()[2] == "auth_status"@); }
    assert(member(ms, "expires_at"@) == Some(ms[3].value)) by { assert(state_keys()[3] == "expires_at"@); }
    assert(member(ms, "last_error"@) == Some(ms[4].value)) by { assert(state_keys()[4] == "last_error"@); }
    assert(member(ms, "last_fetched_at"@) == Some(ms[5].value)) by { assert(state_keys()[5] == "last_fetched_at"@); }
    assert(member(ms, "last_refresh_at"@) == Some(ms[6].value)) by { assert(state_keys()[6] == "last_refresh_at"@); }
    assert(member(ms, "last_snapshot"@) == Some(ms[7].value)) by { assert(state_keys()[7] == "last_snapshot"@); }
    assert(member(ms, "refresh_token"@) == Some(ms[8].value)) by { assert(state_keys()[8] == "refresh_token"@); }
    match s.last_snapshot {
        Some(x) => {
            lemma_snapshot_round_trip(ms[7].value, x);
        },
        None => {},
    }
}

/// A usage window as the extension shows it: only a window that says how
/// long it lasts or when it resets counts; it carries no reset label.
pub open spec fn window_card(w: Option<JsonValue>, id: Seq<char>, title: Seq<char>) -> Option<LimitCardView> {
    match w {
        Some(JsonValue::Object(ms)) => if member(ms@, "limit_window_seconds"@) is None && member(
            ms@,
            "reset_at"@,
        ) is None && member(ms@, "reset_after_seconds"@) is None {
            None
        } else {
            let used = match finite_reading_of(member(ms@, "used_percent"@)) {
                Some(r) => r.percent,
                None => 0,
            };
            Some(
                LimitCardView {
                    id,
                    title,
                    remaining_percent: if used <= 100 {
                        (100 - used) as u32
                    } else {
                        0
                    },
                    resets_at_label: None,
                },
            )
        },
        _ => None,
    }
}

pub open spec fn opt_card_seq(c: Option<LimitCardView>) -> Seq<LimitCardView> {
    match c {
        Some(x) => seq![x],
        None => Seq::empty(),
    }
}

pub open spec fn limit_windows(
    rate_limit: Option<JsonValue>,
    prefix: Seq<char>,
    primary_title: Seq<char>,
    secondary_title: Seq<char>,
) -> Seq<LimitCardView> {
    match rate_limit {
        Some(JsonValue::Object(ms)) => opt_card_seq(
            window_card(member(ms@, "primary_window"@), prefix + "-primary"@, primary_title),
        ) + opt_card_seq(
            window_card(member(ms@, "secondary_window"@), prefix + "-secondary"@, secondary_title),
        ),
        _ => Seq::empty(),
    }
}

pub open spec fn additional_cards(entries: Seq<JsonValue>) -> Seq<LimitCardView>
    decreases entries.len(),
{
    if entries.len() == 0 {
        Seq::empty()
    } else {
        let index = (entries.len() - 1) as nat;
        let entry = entries.last();
        let name = crate::codex_usage::additional_name(entry, index);
        additional_cards(entries.drop_last()) + limit_windows(
            crate::json::field(Some(entry), "rate_limit"@),
            "additional-"@ + decimal(index),
            name + " 5 hour usage limit"@,
            name + " Weekly usage limit"@,
        )
    }
}

/// The credits card: unlimited, or the balance as `f64` displays it.
pub open spec fn usage_credits(v: Option<JsonValue>) -> CreditsView {
    match v {
        Some(JsonValue::Object(ms)) => if crate::json::bool_of(member(ms@, "unlimited"@)) == Some(true) {
            CreditsView { balance_label: "Unlimited"@, detail: "Credits are unlimited."@ }
        } else {
            CreditsView {
                balance_label: match finite_reading_of(member(ms@, "balance"@)) {
                    Some(r) => r.display_label@,
                    None => "0"@,
                },
                detail: default_credits_detail(),
            }
        },
        _ => CreditsView { balance_label: "0"@, detail: default_credits_detail() },
    }
}

/// The snapshot a usage response gives the extension.
#[verifier::opaque]
pub open spec fn usage_snapshot(v: JsonValue) -> Result<SnapshotView, Seq<char>> {
    match v {
        JsonValue::Object(ms) => {
            let rate_limit = member(ms@, "rate_limit"@);
            let primary = crate::json::field(rate_limit, "primary_window"@);
            let used = match finite_reading_of(crate::json::field(primary, "used_percent"@)) {
                Some(r) => r.percent,
                None => 0,
            };
            let additional = match member(ms@, "additional_rate_limits"@) {
                Some(JsonValue::Array(items)) => additional_cards(items@),
                _ => Seq::empty(),
            };
            Ok(
                SnapshotView {
                    auth_status: "authenticated"@,
                    plan_type: text_member(ms@, "plan_type"@),
                    primary_used_percent: used,
                    usage_limits: limit_windows(
                        rate_limit,
                        "codex"@,
                        "5 hour usage limit"@,
                        "Weekly usage limit"@,
                    ) + limit_windows(
                        member(ms@, "code_review_rate_limit"@),
                        "code-review"@,
                        "Code review"@,
                        "Code review weekly usage limit"@,
                    ) + additional,
                    credits_summary: usage_credits(member(ms@, "credits_summary"@)),
                },
            )
        },
        _ => Err("usage response was not a JSON object"@),
    }
}

fn usage_window(w: Option<&JsonValue>, id: String, title: &str) -> (r: Option<UsageLimitCard>)
    ensures
        match r {
            Some(c) => window_card(opt_json(w), id@, title@) == Some(c@),
            None => window_card(opt_json(w), id@, title@) is None,
        },
{
    let ms = match w {
        Some(JsonValue::Object(ms)) => ms,
        _ => return None,
    };
    if get_member(ms, "limit_window_seconds").is_none() && get_member(ms, "reset_at").is_none()
        && get_member(ms, "reset_after_seconds").is_none() {
        return None;
    }
    let used = match read_finite(get_member(ms, "used_percent")) {
        Some(r) => r.percent,
        None => 0,
    };
    Some(
        UsageLimitCard {
            id,
            title: title.to_owned(),
            remaining_percent: 100u32.saturating_sub(used),
            resets_at_label: None,
        },
    )
}

fn push_opt_card(out: &mut Vec<UsageLimitCard>, c: Option<UsageLimitCard>)
    ensures
        cards_view(final(out)@) == cards_view(old(out)@) + opt_card_seq(
            match c {
                Some(x) => Some(x@),
                None => None,
            },
        ),
{
    match c {
        Some(x) => {
            let ghost before = out@;
            out.push(x);
            assert(cards_view(out@) =~= cards_view(before) + seq![x@]);
        },
        None => {
            assert(cards_view(out@) =~= cards_view(out@) + Seq::<LimitCardView>::empty());
        },
    }
}

fn push_limit_windows(
    out: &mut Vec<UsageLimitCard>,
    rate_limit: Option<&JsonValue>,
    prefix: &str,
    primary_title: &str,
    secondary_title: &str,
)
    ensures
        cards_view(final(out)@) == cards_view(old(out)@) + limit_windows(
            opt_json(rate_limit),
            prefix@,
            primary_title@,
            secondary_title@,
        ),
{
    let ms = match rate_limit {
        Some(JsonValue::Object(ms)) => ms,
        _ => {
            assert(cards_view(out@) =~= cards_view(out@) + Seq::<LimitCardView>::empty());
            return;
        },
    };
    let ghost start = cards_view(out@);
    let first = usage_window(get_member(ms, "primary_window"), join2(prefix, "-primary"), primary_title);
    push_opt_card(out, first);
    let second = usage_window(
        get_member(ms, "secondary_window"),
        join2(prefix, "-secondary"),
        secondary_title,
    );
    push_opt_card(out, second);
    assert(cards_view(out@) =~= start + limit_windows(
        opt_json(rate_limit),
        prefix@,
        primary_title@,
        secondary_title@,
    ));
}

/// The credits card read from the usage response's credits member.
pub fn normalize_credits_summary(value: Option<&JsonValue>) -> (r: CreditsSummary)
    ensures
        r@ == usage_credits(opt_json(value)),
{
    let ms = match value {
        Some(JsonValue::Object(ms)) => ms,
        _ => {
            return CreditsSummary {
                balance_label: "0".to_owned(),
                detail: "Use credits to send messages beyond your plan limit.".to_owned(),
            }
        },
    };
    let unlimited = match get_member(ms, "unlimited") {
        Some(JsonValue::Bool(b)) => *b,
        _ => false,
    };
    if unlimited {
        return CreditsSummary {
            balance_label: "Unlimited".to_owned(),
            detail: "Credits are unlimited.".to_owned(),
        };
    }
    let balance_label = match read_finite(get_member(ms, "balance")) {
        Some(r) => r.display_label.clone(),
        None => "0".to_owned(),
    };
    CreditsSummary {
        balance_label,
        detail: "Use credits to send messages beyond your plan limit.".to_owned(),
    }
}

/// Reads a usage response into the extension's snapshot.
#[verifier::rlimit(40)]
pub fn normalize_usage_snapshot(value: &JsonValue) -> (r: Result<SidecarSnapshot, String>)
    ensures
        match r {
            Ok(s) => usage_snapshot(*value) == Ok::<SnapshotView, Seq<char>>(s@),
            Err(m) => usage_snapshot(*value) == Err::<SnapshotView, Seq<char>>(m@),
        },
{
    reveal(usage_snapshot);
    let ms = match value {
        JsonValue::Object(ms) => ms,
        _ => return Err("usage response was not a JSON object".to_owned()),
    };
    let rate_limit = get_member(ms, "rate_limit");
    let primary_window = crate::json::get_field(rate_limit, "primary_window");
    let primary_used_percent = match read_finite(crate::json::get_field(primary_window, "used_percent")) {
        Some(r) => r.percent,
        None => 0,
    };
    let mut usage_limits: Vec<UsageLimitCard> = Vec::new();
    assert(cards_view(usage_limits@) =~= Seq::<LimitCardView>::empty());
    push_limit_windows(&mut usage_limits, rate_limit, "codex", "5 hour usage limit", "Weekly usage limit");
    push_limit_windows(
        &mut usage_limits,
        get_member(ms, "code_review_rate_limit"),
        "code-review",
        "Code review",
        "Code review weekly usage limit",
    );
    let ghost before_additional = cards_view(usage_limits@);
    match get_member(ms, "additional_rate_limits") {
        Some(JsonValue::Array(entries)) => {
            for index in 0..entries.len()
                invariant
                    cards_view(usage_limits@) == before_additional + additional_cards(
                        entries@.take(index as int),
                    ),
            {
                let entry = &entries[index];
                let name = match crate::json::as_text(crate::json::get_field(Some(entry), "limit_name")) {
                    Some(n) => n,
                    None => {
                        let mut n = "Additional limit ".to_owned();
                        push_decimal(&mut n, index as u64 + 1);
                        n
                    },
                };
                let mut prefix = "additional-".to_owned();
                push_decimal(&mut prefix, index as u64);
                let primary_title = join2(name.as_str(), " 5 hour usage limit");
                let secondary_title = join2(name.as_str(), " Weekly usage limit");
                push_limit_windows(
                    &mut usage_limits,
                    crate::json::get_field(Some(entry), "rate_limit"),
                    prefix.as_str(),
                    primary_title.as_str(),
                    secondary_title.as_str(),
                );
                proof {
                    let t = entries@.take(index + 1);
                    assert(t.drop_last() == entries@.take(index as int));
                    assert(t.last() == entries@[index as int]);
                    assert(name@ == crate::codex_usage::additional_name(entries@[index as int], index as nat));
                }
            }
            assert(entries@.take(entries@.len() as int) == entries@);
        },
        _ => {
            assert(cards_view(usage_limits@) =~= before_additional + Seq::<LimitCardView>::empty());
        },
    }
    Ok(
        SidecarSnapshot {
            auth_status: "authenticated".to_owned(),
            plan_type: optional_string(ms, "plan_type"),
            primary_used_percent,
            usage_limits,
            credits_summary: normalize_credits_summary(get_member(ms, "credits_summary")),
        },
    )
}

/// Whether the access token must be refreshed at `now` (milliseconds).
pub fn access_token_needs_refresh(state: &PersistedAuthState, now: u64, force_refresh: bool) -> (r: bool)
    ensures
        r == (force_refresh || state.access_token is None || state.expires_at == 0
            || state.expires_at <= crate::codex_usage::sat_add(now, 300_000)),
{
    let expires_soon = state.expires_at == 0 || state.expires_at <= now.saturating_add(300_000);
    force_refresh || state.access_token.is_none() || expires_soon
}

/// The refresh token to send, if there is one.
pub fn refresh_token_for_request(state: &PersistedAuthState) -> (r: Result<String, String>)
    ensures
        match r {
            Ok(t) => state.refresh_token matches Some(x) && t@ == x@,
            Err(m) => state.refresh_token is None && m@ == "no refresh token is available"@,
        },
{
    match &state.refresh_token {
        Some(t) => Ok(t.clone()),
        None => Err("no refresh token is available".to_owned()),
    }
}

/// Takes in a token endpoint's answer: `expires_now` and `refreshed_now` are
/// the clock readings (milliseconds) taken for the expiry and for the
/// refresh time. A failure leaves the state as it was.
pub fn apply_token_refresh(
    state: &mut PersistedAuthState,
    response: &JsonValue,
    refresh_token: &str,
    expires_now: u64,
    refreshed_now: u64,
) -> (r: Result<(), String>)
    ensures
        match *response {
            JsonValue::Object(ms) => match text_member(ms@, "access_token"@) {
                None => r matches Err(m) && m@ == "sidecar snapshot is missing `"@ + "access_token"@
                    + "`"@ && final(state)@ == old(state)@,
                Some(access) => r is Ok && final(state)@ == (AuthStateView {
                    access_token: Some(access),
                    refresh_token: Some(text_or(text_member(ms@, "refresh_token"@), refresh_token@)),
                    expires_at: crate::codex_usage::sat_add(
                        expires_now,
                        crate::codex_usage::sat_mul(
                            match u64_member(ms@, "expires_in"@) {
                                Some(n) => n,
                                None => 3_600,
                            },
                            1_000,
                        ),
                    ),
                    last_refresh_at: refreshed_now,
                    auth_status: "authenticated"@,
                    ..old(state)@
                }),
            },
            _ => r matches Err(m) && m@ == "token refresh response was not an object"@ && final(state)@
                == old(state)@,
        },
{
    let ms = match response {
        JsonValue::Object(ms) => ms,
        _ => return Err("token refresh response was not an object".to_owned()),
    };
    let access = match required_text(ms, "access_token") {
        Ok(t) => t,
        Err(e) => return Err(e),
    };
    state.access_token = Some(access);
    state.refresh_token = Some(
        match optional_string(ms, "refresh_token") {
            Some(t) => t,
            None => refresh_token.to_owned(),
        },
    );
    let expires_in = match member_u64(ms, "expires_in") {
        Some(n) => n,
        None => 3_600,
    };
    let lifetime_ms: u64 = if expires_in <= u64::MAX / 1_000 {
        expires_in * 1_000
    } else {
        u64::MAX
    };
    state.expires_at = expires_now.saturating_add(lifetime_ms);
    state.last_refresh_at = refreshed_now;
    state.auth_status = "authenticated".to_owned();
    Ok(())
}

pub open spec fn is_unreserved(b: u8) -> bool {
    (48 <= b <= 57) || (65 <= b <= 90) || (97 <= b <= 122) || b == 45 || b == 46 || b == 95 || b == 126
}

pub open spec fn upper_hex(n: u8) -> char {
    if n < 10 {
        crate::text::digit_char(n as nat)
    } else if n == 10 {
        'A'
    } else if n == 11 {
        'B'
    } else if n == 12 {
        'C'
    } else if n == 13 {
        'D'
    } else if n == 14 {
        'E'
    } else {
        'F'
    }
}

/// Percent-encoding as the `urlencoding` crate does it: bytes other than
/// ASCII letters, digits and `-._~` become `%` and two upper-case hex digits.
pub open spec fn url_encoded(bytes: Seq<u8>) -> Seq<char>
    decreases bytes.len(),
{
    if bytes.len() == 0 {
        Seq::empty()
    } else {
        let b = bytes.last();
        url_encoded(bytes.drop_last()) + if is_unreserved(b) {
            seq![b as char]
        } else {
            seq!['%', upper_hex(b / 16), upper_hex(b % 16)]
        }
    }
}

/// `urlencoding::encode`: percent-encodes every byte of the text's UTF-8
/// form except ASCII letters, digits, `-`, `.`, `_` and `~`, with upper-case
/// hex digits.
#[verifier::external_body]
fn url_encode(text: &str) -> (r: String)
    ensures
        r@ == url_encoded(text.spec_bytes()),
{
    urlencoding::encode(text).into_owned()
}

pub open spec fn form_pair(name: Seq<u8>, value: Seq<u8>) -> Seq<char> {
    url_encoded(name) + "="@ + url_encoded(value)
}

/// The pairs of a form, encoded and joined by `&`.
pub open spec fn form_text(pairs: Seq<(Seq<u8>, Seq<u8>)>) -> Seq<char>
    decreases pairs.len(),
{
    if pairs.len() == 0 {
        Seq::empty()
    } else if pairs.len() == 1 {
        form_pair(pairs[0].0, pairs[0].1)
    } else {
        form_text(pairs.drop_last()) + "&"@ + form_pair(pairs.last().0, pairs.last().1)
    }
}

pub open spec fn pairs_bytes(pairs: Seq<(&str, &str)>) -> Seq<(Seq<u8>, Seq<u8>)> {
    pairs.map_values(|p: (&str, &str)| (p.0.spec_bytes(), p.1.spec_bytes()))
}

/// The body of a form post: each pair URL-encoded as `name=value`, joined
/// by `&`.
pub fn form_body(parameters: &Vec<(&str, &str)>) -> (r: String)
    ensures
        r@ == form_text(pairs_bytes(parameters@)),
{
    let mut r = String::new();
    for i in 0..parameters.len()
        invariant
            r@ == form_text(pairs_bytes(parameters@.take(i as int))),
    {
        let (name, value) = parameters[i];
        let ghost t = pairs_bytes(parameters@.take(i + 1));
        assert(t.drop_last() =~= pairs_bytes(parameters@.take(i as int)));
        assert(t.last() == (name.spec_bytes(), value.spec_bytes()));
        if i > 0 {
            r.append("&");
        } else {
            assert(r@ =~= Seq::<char>::empty());
        }
        let n = url_encode(name);
        let v = url_encode(value);
        r.append(n.as_str());
        r.append("=");
        r.append(v.as_str());
        if i == 0 {
            assert(r@ =~= form_pair(name.spec_bytes(), value.spec_bytes()));
        }
    }
    assert(parameters@.take(parameters@.len() as int) == parameters@);
    r
}

} // verus!
