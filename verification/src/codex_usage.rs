//! The Codex usage plugin's state: the usage snapshot shown in its panel and
//! titlebar widget, the persisted ChatGPT auth state, and the store that moves
//! between signed out, pending, authenticated and error.

use vstd::prelude::*;
use crate::text::{ascii_lower_char, contains_seq, decimal, join2, join3, push_decimal, same_text};
use crate::json::{
    distinct, get_member, integer_of, is_count, is_opt_text, is_text, json_member, json_opt_text,
    json_text, json_u64, keys_of, lemma_member_absent, lemma_member_of_distinct, member,
    read_integer, text_of, JsonMember, JsonValue, amount_of, bool_of, percent_of, read_amount,
    read_percent,
};
use vstd::string::StringSliceAdditionalSpecFns;
use base64::Engine;
use sha2::Digest;

verus! {

pub open spec fn opt_view(o: Option<String>) -> Option<Seq<char>> {
    match o {
        Some(s) => Some(s@),
        None => None,
    }
}

/// A copy of an optional text.
pub fn copy_opt(o: &Option<String>) -> (r: Option<String>)
    ensures
        r == *o,
        opt_view(r) == opt_view(*o),
{
    match o {
        Some(s) => Some(s.clone()),
        None => None,
    }
}

/// One usage window, as a card of the panel.
#[derive(Clone, Debug, PartialEq, Eq)]
pub struct UsageLimitCard {
    pub id: String,
    pub title: String,
    pub remaining_percent: u32,
    pub resets_at_label: Option<String>,
}

pub struct LimitCardView {
    pub id: Seq<char>,
    pub title: Seq<char>,
    pub remaining_percent: u32,
    pub resets_at_label: Option<Seq<char>>,
}

impl View for UsageLimitCard {
    type V = LimitCardView;

    open spec fn view(&self) -> LimitCardView {
        LimitCardView {
            id: self.id@,
            title: self.title@,
            remaining_percent: self.remaining_percent,
            resets_at_label: opt_view(self.resets_at_label),
        }
    }
}

impl UsageLimitCard {
    /// A field-by-field copy.
    pub fn duplicate(&self) -> (r: Self)
        ensures
            r@ == self@,
    {
        UsageLimitCard {
            id: self.id.clone(),
            title: self.title.clone(),
            remaining_percent: self.remaining_percent,
            resets_at_label: copy_opt(&self.resets_at_label),
        }
    }
}

/// The credits card of the panel.
#[derive(Clone, Debug, PartialEq, Eq)]
pub struct CreditsSummary {
    pub balance_label: String,
    pub detail: String,
}

pub struct CreditsView {
    pub balance_label: Seq<char>,
    pub detail: Seq<char>,
}

impl View for CreditsSummary {
    type V = CreditsView;

    open spec fn view(&self) -> CreditsView {
        CreditsView { balance_label: self.balance_label@, detail: self.detail@ }
    }
}

pub open spec fn default_credits_detail() -> Seq<char> {
    "Use credits to send messages beyond your plan limit."@
}

/// The credits card when nothing is known of the credits.
pub open spec fn default_credits_view() -> CreditsView {
    CreditsView { balance_label: "$0.00"@, detail: default_credits_detail() }
}

impl CreditsSummary {
    /// A field-by-field copy.
    pub fn duplicate(&self) -> (r: Self)
        ensures
            r@ == self@,
    {
        CreditsSummary { balance_label: self.balance_label.clone(), detail: self.detail.clone() }
    }

    /// `$0.00` and the standard credits note.
    pub fn zero_balance() -> (r: Self)
        ensures
            r@ == default_credits_view(),
    {
        CreditsSummary {
            balance_label: "$0.00".to_owned(),
            detail: "Use credits to send messages beyond your plan limit.".to_owned(),
        }
    }
}

/// What the plugin shows: auth status, plan, usage windows and credits.
#[derive(Clone, Debug, PartialEq, Eq)]
pub struct SidecarSnapshot {
    pub auth_status: String,
    pub plan_type: Option<String>,
    pub status_label: String,
    pub detail: String,
    pub primary_used_percent: u32,
    pub usage_limits: Vec<UsageLimitCard>,
    pub credits_summary: CreditsSummary,
}

pub struct SnapshotView {
    pub auth_status: Seq<char>,
    pub plan_type: Option<Seq<char>>,
    pub status_label: Seq<char>,
    pub detail: Seq<char>,
    pub primary_used_percent: u32,
    pub usage_limits: Seq<LimitCardView>,
    pub credits_summary: CreditsView,
}

pub open spec fn cards_view(cards: Seq<UsageLimitCard>) -> Seq<LimitCardView> {
    cards.map_values(|c: UsageLimitCard| c@)
}

impl View for SidecarSnapshot {
    type V = SnapshotView;

    open spec fn view(&self) -> SnapshotView {
        SnapshotView {
            auth_status: self.auth_status@,
            plan_type: opt_view(self.plan_type),
            status_label: self.status_label@,
            detail: self.detail@,
            primary_used_percent: self.primary_used_percent,
            usage_limits: cards_view(self.usage_limits@),
            credits_summary: self.credits_summary@,
        }
    }
}

/// The snapshot shown while nobody is signed in.
pub open spec fn signed_out_view() -> SnapshotView {
    SnapshotView {
        auth_status: "signed-out"@,
        plan_type: None,
        status_label: "Sign in to ChatGPT"@,
        detail: "Sign in to view ChatGPT Codex usage and credits."@,
        primary_used_percent: 0,
        usage_limits: Seq::empty(),
        credits_summary: default_credits_view(),
    }
}

/// The snapshot shown while the browser sign-in runs.
pub open spec fn pending_view() -> SnapshotView {
    SnapshotView {
        auth_status: "pending"@,
        status_label: "Waiting for ChatGPT sign-in"@,
        detail: "Complete the browser sign-in flow to refresh Codex usage."@,
        ..signed_out_view()
    }
}

/// The snapshot shown after a failed sign-in, with its message or a default.
pub open spec fn error_view(message: Option<Seq<char>>) -> SnapshotView {
    SnapshotView {
        auth_status: "error"@,
        status_label: "ChatGPT sign-in failed"@,
        detail: match message {
            Some(m) => m,
            None => "ChatGPT authentication failed."@,
        },
        ..signed_out_view()
    }
}

/// The remaining share of the primary window: the first card's, capped at
/// 100, or what the used share leaves.
pub open spec fn remaining_percent_of(s: SnapshotView) -> u32 {
    if s.usage_limits.len() > 0 {
        if s.usage_limits[0].remaining_percent <= 100 {
            s.usage_limits[0].remaining_percent
        } else {
            100
        }
    } else if s.primary_used_percent <= 100 {
        (100 - s.primary_used_percent) as u32
    } else {
        0
    }
}

/// A copy of each card, in order.
pub fn copy_cards(cards: &Vec<UsageLimitCard>) -> (r: Vec<UsageLimitCard>)
    ensures
        cards_view(r@) == cards_view(cards@),
{
    let mut out: Vec<UsageLimitCard> = Vec::new();
    for i in 0..cards.len()
        invariant
            cards_view(out@) == cards_view(cards@.take(i as int)),
    {
        let ghost before = out@;
        out.push(cards[i].duplicate());
        assert(cards@.take(i + 1) == cards@.take(i as int).push(cards@[i as int]));
        assert(cards_view(out@) =~= cards_view(before).push(cards@[i as int]@));
        assert(cards_view(cards@.take(i + 1)) =~= cards_view(cards@.take(i as int)).push(
            cards@[i as int]@,
        ));
    }
    assert(cards@.take(cards@.len() as int) == cards@);
    out
}

impl SidecarSnapshot {
    /// A field-by-field copy.
    pub fn duplicate(&self) -> (r: Self)
        ensures
            r@ == self@,
    {
        SidecarSnapshot {
            auth_status: self.auth_status.clone(),
            plan_type: copy_opt(&self.plan_type),
            status_label: self.status_label.clone(),
            detail: self.detail.clone(),
            primary_used_percent: self.primary_used_percent,
            usage_limits: copy_cards(&self.usage_limits),
            credits_summary: self.credits_summary.duplicate(),
        }
    }

    /// The snapshot shown while nobody is signed in.
    pub fn signed_out() -> (r: Self)
        ensures
            r@ == signed_out_view(),
    {
        let r = SidecarSnapshot {
            auth_status: "signed-out".to_owned(),
            plan_type: None,
            status_label: "Sign in to ChatGPT".to_owned(),
            detail: "Sign in to view ChatGPT Codex usage and credits.".to_owned(),
            primary_used_percent: 0,
            usage_limits: Vec::new(),
            credits_summary: CreditsSummary::zero_balance(),
        };
        assert(cards_view(r.usage_limits@) == Seq::<LimitCardView>::empty());
        r
    }

    /// The snapshot shown while the browser sign-in runs.
    pub fn pending() -> (r: Self)
        ensures
            r@ == pending_view(),
    {
        let base = Self::signed_out();
        SidecarSnapshot {
            auth_status: "pending".to_owned(),
            status_label: "Waiting for ChatGPT sign-in".to_owned(),
            detail: "Complete the browser sign-in flow to refresh Codex usage.".to_owned(),
            ..base
        }
    }

    /// The snapshot shown after a failed sign-in.
    pub fn error(message: Option<&str>) -> (r: Self)
        ensures
            r@ == error_view(
                match message {
                    Some(m) => Some(m@),
                    None => None,
                },
            ),
    {
        let base = Self::signed_out();
        let detail = match message {
            Some(m) => m.to_owned(),
            None => "ChatGPT authentication failed.".to_owned(),
        };
        SidecarSnapshot {
            auth_status: "error".to_owned(),
            status_label: "ChatGPT sign-in failed".to_owned(),
            detail,
            ..base
        }
    }

    /// Whether the snapshot belongs to a signed-in account.
    pub fn is_authenticated(&self) -> (r: bool)
        ensures
            r == (self.auth_status@ == "authenticated"@),
    {
        same_text(self.auth_status.as_str(), "authenticated")
    }

    /// Whether a sign-in is under way.
    pub fn is_pending(&self) -> (r: bool)
        ensures
            r == (self.auth_status@ == "pending"@),
    {
        same_text(self.auth_status.as_str(), "pending")
    }

    /// The remaining share of the primary usage window, in percent.
    pub fn primary_remaining_percent(&self) -> (r: u32)
        ensures
            r == remaining_percent_of(self@),
            r <= 100,
    {
        if self.usage_limits.len() > 0 {
            let p = self.usage_limits[0].remaining_percent;
            if p <= 100 {
                p
            } else {
                100
            }
        } else if self.primary_used_percent <= 100 {
            100 - self.primary_used_percent
        } else {
            0
        }
    }
}

/// The auth state kept on disk (tokens go to secure storage).
#[derive(Clone, Debug, PartialEq, Eq)]
pub struct PersistedAuthState {
    pub auth_status: String,
    pub access_token: Option<String>,
    pub refresh_token: Option<String>,
    pub account_id: Option<String>,
    pub expires_at: u64,
    pub last_refresh_at: u64,
    pub last_snapshot: Option<SidecarSnapshot>,
    pub last_fetched_at: u64,
    pub last_error: Option<String>,
}

pub struct AuthStateView {
    pub auth_status: Seq<char>,
    pub access_token: Option<Seq<char>>,
    pub refresh_token: Option<Seq<char>>,
    pub account_id: Option<Seq<char>>,
    pub expires_at: u64,
    pub last_refresh_at: u64,
    pub last_snapshot: Option<SnapshotView>,
    pub last_fetched_at: u64,
    pub last_error: Option<Seq<char>>,
}

pub open spec fn opt_snapshot_view(o: Option<SidecarSnapshot>) -> Option<SnapshotView> {
    match o {
        Some(s) => Some(s@),
        None => None,
    }
}

impl View for PersistedAuthState {
    type V = AuthStateView;

    open spec fn view(&self) -> AuthStateView {
        AuthStateView {
            auth_status: self.auth_status@,
            access_token: opt_view(self.access_token),
            refresh_token: opt_view(self.refresh_token),
            account_id: opt_view(self.account_id),
            expires_at: self.expires_at,
            last_refresh_at: self.last_refresh_at,
            last_snapshot: opt_snapshot_view(self.last_snapshot),
            last_fetched_at: self.last_fetched_at,
            last_error: opt_view(self.last_error),
        }
    }
}

/// The state of someone who never signed in.
pub open spec fn signed_out_state_view() -> AuthStateView {
    AuthStateView {
        auth_status: "signed-out"@,
        access_token: None,
        refresh_token: None,
        account_id: None,
        expires_at: 0,
        last_refresh_at: 0,
        last_snapshot: None,
        last_fetched_at: 0,
        last_error: None,
    }
}

/// A copy of an optional snapshot.
pub fn copy_opt_snapshot(o: &Option<SidecarSnapshot>) -> (r: Option<SidecarSnapshot>)
    ensures
        opt_snapshot_view(r) == opt_snapshot_view(*o),
{
    match o {
        Some(s) => Some(s.duplicate()),
        None => None,
    }
}

impl PersistedAuthState {
    /// The state of someone who never signed in.
    pub fn signed_out() -> (r: Self)
        ensures
            r@ == signed_out_state_view(),
    {
        PersistedAuthState {
            auth_status: "signed-out".to_owned(),
            access_token: None,
            refresh_token: None,
            account_id: None,
            expires_at: 0,
            last_refresh_at: 0,
            last_snapshot: None,
            last_fetched_at: 0,
            last_error: None,
        }
    }

    /// A field-by-field copy.
    pub fn duplicate(&self) -> (r: Self)
        ensures
            r@ == self@,
    {
        PersistedAuthState {
            auth_status: self.auth_status.clone(),
            access_token: copy_opt(&self.access_token),
            refresh_token: copy_opt(&self.refresh_token),
            account_id: copy_opt(&self.account_id),
            expires_at: self.expires_at,
            last_refresh_at: self.last_refresh_at,
            last_snapshot: copy_opt_snapshot(&self.last_snapshot),
            last_fetched_at: self.last_fetched_at,
            last_error: copy_opt(&self.last_error),
        }
    }
}

/// The snapshot to show for a persisted state: the pending one while a
/// sign-in runs, else the last fetched one, else an error or signed-out one.
pub open spec fn current_snapshot_view(state: AuthStateView) -> SnapshotView {
    if state.auth_status == "pending"@ {
        pending_view()
    } else if state.last_snapshot is Some {
        state.last_snapshot->0
    } else if state.auth_status == "error"@ {
        error_view(state.last_error)
    } else {
        signed_out_view()
    }
}

/// The snapshot to show for `state`.
pub fn current_snapshot(state: &PersistedAuthState) -> (r: SidecarSnapshot)
    ensures
        r@ == current_snapshot_view(state@),
{
    if same_text(state.auth_status.as_str(), "pending") {
        SidecarSnapshot::pending()
    } else {
        match &state.last_snapshot {
            Some(s) => s.duplicate(),
            None => {
                if same_text(state.auth_status.as_str(), "error") {
                    match &state.last_error {
                        Some(m) => SidecarSnapshot::error(Some(m.as_str())),
                        None => SidecarSnapshot::error(None),
                    }
                } else {
                    SidecarSnapshot::signed_out()
                }
            },
        }
    }
}

/// The titlebar text: `Waiting`, the remaining percentage, `Retry` or `Sign In`.
pub open spec fn titlebar_label(s: SnapshotView) -> Seq<char> {
    if s.auth_status == "pending"@ {
        "Waiting"@
    } else if s.auth_status == "authenticated"@ {
        decimal(remaining_percent_of(s) as nat) + "%"@
    } else if s.auth_status == "error"@ {
        "Retry"@
    } else {
        "Sign In"@
    }
}

/// The compact label of the titlebar widget.
pub fn compact_titlebar_label(snapshot: &SidecarSnapshot) -> (r: String)
    ensures
        r@ == titlebar_label(snapshot@),
{
    if snapshot.is_pending() {
        "Waiting".to_owned()
    } else if snapshot.is_authenticated() {
        let mut r = String::new();
        push_decimal(&mut r, snapshot.primary_remaining_percent() as u64);
        r.append("%");
        r
    } else if same_text(snapshot.auth_status.as_str(), "error") {
        "Retry".to_owned()
    } else {
        "Sign In".to_owned()
    }
}

/// The titlebar label follows the sign-in state alone, whatever else the
/// snapshot holds: `Waiting` while a sign-in is pending, `Retry` after an
/// error, `Sign In` for any status other than these and `authenticated`,
/// and a percentage (digits then `%`) once signed in.
pub proof fn lemma_titlebar_label_by_status(s: SnapshotView)
    ensures
        s.auth_status == "pending"@ ==> titlebar_label(s) == "Waiting"@,
        s.auth_status == "error"@ ==> titlebar_label(s) == "Retry"@,
        s.auth_status != "pending"@ && s.auth_status != "authenticated"@ && s.auth_status != "error"@
            ==> titlebar_label(s) == "Sign In"@,
        s.auth_status == "authenticated"@ ==> titlebar_label(s).len() >= 2 && titlebar_label(s).last()
            == '%',
        s.auth_status == "authenticated"@ && s.usage_limits.len() > 0 ==> titlebar_label(s) == decimal(
            if s.usage_limits[0].remaining_percent <= 100 {
                s.usage_limits[0].remaining_percent as nat
            } else {
                100
            },
        ) + "%"@,
        s.auth_status == "authenticated"@ && s.usage_limits.len() == 0 ==> titlebar_label(s) == decimal(
            if s.primary_used_percent <= 100 {
                (100 - s.primary_used_percent) as nat
            } else {
                0
            },
        ) + "%"@,
{
    reveal_strlit("pending");
    reveal_strlit("authenticated");
    reveal_strlit("error");
    reveal_strlit("%");
    assert("error"@.len() != "pending"@.len());
    assert("error"@.len() != "authenticated"@.len());
    assert("pending"@.len() != "authenticated"@.len());
    if s.auth_status == "authenticated"@ {
        assert(decimal(remaining_percent_of(s) as nat).len() >= 1);
        assert(titlebar_label(s) == decimal(remaining_percent_of(s) as nat) + "%"@);
    }
}

/// The last `count` characters of `s` (all of it when shorter).
pub open spec fn last_chars(s: Seq<char>, count: nat) -> Seq<char> {
    if s.len() <= count {
        s
    } else {
        s.subrange(s.len() - count, s.len() as int)
    }
}

/// The last `count` characters of `value` (all of them when it is shorter).
pub fn last_n_characters(value: &str, count: usize) -> (r: String)
    ensures
        r@ == last_chars(value@, count as nat),
{
    let n = value.unicode_len();
    let skip = n.saturating_sub(count);
    value.substring_char(skip, n).to_owned()
}

/// `resets in <n><unit>`, in the largest whole unit of days, hours, minutes
/// or seconds.
pub open spec fn duration_label(seconds: nat) -> Seq<char> {
    if seconds >= 86_400 {
        "resets in "@ + decimal(seconds / 86_400) + "d"@
    } else if seconds >= 3_600 {
        "resets in "@ + decimal(seconds / 3_600) + "h"@
    } else if seconds >= 60 {
        "resets in "@ + decimal(seconds / 60) + "m"@
    } else {
        "resets in "@ + decimal(seconds) + "s"@
    }
}

/// A duration in seconds as the panel shows it.
pub fn format_duration_label(seconds: u64) -> (r: String)
    ensures
        r@ == duration_label(seconds as nat),
{
    let (amount, unit): (u64, &str) = if seconds >= 86_400 {
        (seconds / 86_400, "d")
    } else if seconds >= 3_600 {
        (seconds / 3_600, "h")
    } else if seconds >= 60 {
        (seconds / 60, "m")
    } else {
        (seconds, "s")
    };
    let mut r = "resets in ".to_owned();
    push_decimal(&mut r, amount);
    r.append(unit);
    r
}

/// The address the OAuth callback listens on.
pub open spec fn redirect_uri(port: nat) -> Seq<char> {
    "http://localhost:"@ + decimal(port) + "/auth/callback"@
}

/// The redirect URI of the local OAuth callback on `port`.
pub fn oauth_redirect_uri(port: u16) -> (r: String)
    ensures
        r@ == redirect_uri(port as nat),
{
    let mut r = "http://localhost:".to_owned();
    push_decimal(&mut r, port as u64);
    r.append("/auth/callback");
    r
}

/// What the panel and the titlebar widget render.
#[derive(Clone, Debug, PartialEq, Eq)]
pub struct ViewModel {
    pub serial: u64,
    pub busy: bool,
    pub has_session: bool,
    pub account_label: Option<String>,
    pub last_error: Option<String>,
    pub snapshot: SidecarSnapshot,
}

pub open spec fn auth_label(busy: bool, s: SnapshotView) -> Seq<char> {
    if s.auth_status == "pending"@ || busy {
        "Waiting..."@
    } else if s.auth_status == "authenticated"@ {
        "Sign Out"@
    } else {
        "Sign In"@
    }
}

impl ViewModel {
    /// `Waiting...` while busy or pending, `Sign Out` when signed in, else
    /// `Sign In`.
    pub fn auth_button_label(&self) -> (r: &'static str)
        ensures
            r@ == auth_label(self.busy, self.snapshot@),
    {
        if self.snapshot.is_pending() || self.busy {
            "Waiting..."
        } else if self.snapshot.is_authenticated() {
            "Sign Out"
        } else {
            "Sign In"
        }
    }

    /// The auth button is disabled while a sign-in is pending or work runs.
    pub fn auth_button_disabled(&self) -> (r: bool)
        ensures
            r == (self.snapshot@.auth_status == "pending"@ || self.busy),
    {
        self.snapshot.is_pending() || self.busy
    }

    /// The refresh button is disabled while work runs or a sign-in is
    /// pending; a missing session does not disable it.
    pub fn refresh_button_disabled(&self) -> (r: bool)
        ensures
            r == (self.busy || self.snapshot@.auth_status == "pending"@),
    {
        self.busy || self.snapshot.is_pending()
    }
}

/// Which operation failed.
#[derive(Clone, Copy, Debug, PartialEq, Eq, Structural)]
pub enum OperationKind {
    Login,
    Refresh,
}

impl OperationKind {
    pub open spec fn status(self) -> Seq<char> {
        match self {
            OperationKind::Login => "error"@,
            OperationKind::Refresh => "authenticated"@,
        }
    }

    /// The auth status a failure of this operation leaves: a failed login is
    /// an error, a failed refresh keeps the account signed in.
    pub fn error_status(self) -> (r: String)
        ensures
            r@ == self.status(),
    {
        match self {
            OperationKind::Login => "error".to_owned(),
            OperationKind::Refresh => "authenticated".to_owned(),
        }
    }
}

pub open spec fn overrides_status(current: Seq<char>, next: Seq<char>) -> bool {
    current == "pending"@ || current.len() == 0 || next == "error"@
}

/// Whether a failure replaces the current auth status: it does when a
/// sign-in was pending, when there was no status, or when the failure is an
/// error status.
pub fn operation_should_override_auth_status(current_status: &str, next_status: &str) -> (r: bool)
    ensures
        r == overrides_status(current_status@, next_status@),
{
    same_text(current_status, "pending") || current_status.is_empty() || same_text(
        next_status,
        "error",
    )
}

/// `n + 1`, or `n` at the top of the range.
pub open spec fn bump(n: u64) -> u64 {
    if n < u64::MAX {
        (n + 1) as u64
    } else {
        n
    }
}

/// The store behind the panel and the titlebar widget. Reading the disk,
/// saving and the network flows happen outside; each method here is one
/// step of the state machine between them.
#[derive(Debug)]
pub struct CodexUsageStore {
    pub auth_state_path: String,
    pub persisted: PersistedAuthState,
    pub busy: bool,
    pub serial: u64,
    pub hydrated: bool,
}

/// What a refresh request turns into.
#[derive(Debug)]
pub enum RefreshStart {
    /// Work is already running; nothing changes.
    Ignored,
    /// There is no session to refresh: a sign-in starts instead.
    NeedsLogin,
    /// The refresh flow runs on this copy of the state.
    Started(PersistedAuthState),
}

/// The view of `persisted` with the given flags: an authenticated snapshot
/// without a session shows as signed out.
pub open spec fn view_snapshot(persisted: AuthStateView) -> SnapshotView {
    let s = current_snapshot_view(persisted);
    if persisted.refresh_token is None && s.auth_status == "authenticated"@ {
        signed_out_view()
    } else {
        s
    }
}

pub open spec fn account_label_of(account_id: Option<Seq<char>>) -> Option<Seq<char>> {
    match account_id {
        Some(a) => Some("Account "@ + last_chars(a, 8)),
        None => None,
    }
}

/// The state after a failed load: signed out, with the signed-out snapshot
/// and the reason.
pub open spec fn load_failed_view(message: Seq<char>) -> AuthStateView {
    AuthStateView {
        last_snapshot: Some(signed_out_view()),
        last_error: Some("Failed to load auth state: "@ + message),
        ..signed_out_state_view()
    }
}

impl CodexUsageStore {
    /// A store for the auth state at `auth_state_path`, not yet loaded.
    pub fn new(auth_state_path: String) -> (r: Self)
        ensures
            r.auth_state_path@ == auth_state_path@,
            r.persisted@ == signed_out_state_view(),
            !r.busy,
            r.serial == 1,
            !r.hydrated,
    {
        CodexUsageStore {
            auth_state_path,
            persisted: PersistedAuthState::signed_out(),
            busy: false,
            serial: 1,
            hydrated: false,
        }
    }

    /// What the surfaces render now.
    pub fn current_view_model(&self) -> (r: ViewModel)
        ensures
            r.serial == self.serial,
            r.busy == self.busy,
            r.has_session == (self.persisted.refresh_token is Some),
            opt_view(r.account_label) == account_label_of(opt_view(self.persisted.account_id)),
            opt_view(r.last_error) == opt_view(self.persisted.last_error),
            r.snapshot@ == view_snapshot(self.persisted@),
    {
        let has_session = self.persisted.refresh_token.is_some();
        let mut snapshot = current_snapshot(&self.persisted);
        if !has_session && snapshot.is_authenticated() {
            snapshot = SidecarSnapshot::signed_out();
        }
        let account_label = match &self.persisted.account_id {
            Some(a) => Some(join2("Account ", last_n_characters(a.as_str(), 8).as_str())),
            None => None,
        };
        ViewModel {
            serial: self.serial,
            busy: self.busy,
            has_session,
            account_label,
            last_error: copy_opt(&self.persisted.last_error),
            snapshot,
        }
    }

    /// Takes in the state read from disk, or the reason it could not be
    /// read, unless a state was taken in already.
    pub fn hydrate(&mut self, loaded: Result<PersistedAuthState, String>)
        ensures
            old(self).hydrated ==> *final(self) == *old(self),
            !old(self).hydrated ==> ({
                &&& final(self).hydrated
                &&& final(self).serial == bump(old(self).serial)
                &&& final(self).busy == old(self).busy
                &&& final(self).auth_state_path == old(self).auth_state_path
                &&& final(self).persisted@ == match loaded {
                    Ok(p) => p@,
                    Err(m) => load_failed_view(m@),
                }
            }),
    {
        if self.hydrated {
            return;
        }
        let persisted = match loaded {
            Ok(p) => p,
            Err(message) => PersistedAuthState {
                auth_status: "signed-out".to_owned(),
                access_token: None,
                refresh_token: None,
                account_id: None,
                expires_at: 0,
                last_refresh_at: 0,
                last_snapshot: Some(SidecarSnapshot::signed_out()),
                last_fetched_at: 0,
                last_error: Some(join2("Failed to load auth state: ", message.as_str())),
            },
        };
        self.persisted = persisted;
        self.hydrated = true;
        self.serial = self.serial.saturating_add(1);
    }

    /// Whether a background refresh is due at `now` (milliseconds): not
    /// while busy or without a session; at once without a snapshot; else a
    /// minute after the last fetch.
    pub fn should_refresh_stale(&self, now: u64) -> (r: bool)
        ensures
            r == (!self.busy && self.persisted.refresh_token is Some && (
            self.persisted.last_snapshot is None || (if now >= self.persisted.last_fetched_at {
                now - self.persisted.last_fetched_at
            } else {
                0
            }) >= 60_000)),
    {
        if self.busy {
            false
        } else if self.persisted.refresh_token.is_none() {
            false
        } else if self.persisted.last_snapshot.is_none() {
            true
        } else {
            now.saturating_sub(self.persisted.last_fetched_at) >= 60_000
        }
    }

    /// Starts a sign-in unless work runs: marks the state pending and busy
    /// and returns the state to save before the browser flow starts.
    pub fn begin_login(&mut self) -> (r: Option<PersistedAuthState>)
        ensures
            old(self).busy ==> r is None && *final(self) == *old(self),
            !old(self).busy ==> ({
                &&& final(self).busy
                &&& final(self).serial == bump(old(self).serial)
                &&& final(self).hydrated == old(self).hydrated
                &&& final(self).auth_state_path == old(self).auth_state_path
                &&& final(self).persisted@ == (AuthStateView {
                    auth_status: "pending"@,
                    last_error: None,
                    last_snapshot: Some(pending_view()),
                    ..old(self).persisted@
                })
                &&& r matches Some(p) && p@ == final(self).persisted@
            }),
    {
        if self.busy {
            return None;
        }
        self.busy = true;
        self.serial = self.serial.saturating_add(1);
        self.persisted.auth_status = "pending".to_owned();
        self.persisted.last_error = None;
        self.persisted.last_snapshot = Some(SidecarSnapshot::pending());
        Some(self.persisted.duplicate())
    }

    /// The pending state could not be saved: the sign-in ends in an error.
    pub fn login_save_failed(&mut self, error: &str)
        ensures
            !final(self).busy,
            final(self).serial == bump(old(self).serial),
            final(self).hydrated == old(self).hydrated,
            final(self).auth_state_path == old(self).auth_state_path,
            final(self).persisted@ == (AuthStateView {
                auth_status: "error"@,
                last_error: Some(error@),
                last_snapshot: Some(error_view(Some(error@))),
                ..old(self).persisted@
            }),
    {
        self.busy = false;
        self.serial = self.serial.saturating_add(1);
        self.persisted.auth_status = "error".to_owned();
        self.persisted.last_error = Some(error.to_owned());
        self.persisted.last_snapshot = Some(SidecarSnapshot::error(Some(error)));
    }

    /// Starts a refresh: ignored while busy; without a session a sign-in is
    /// needed; else the store turns busy and hands out the state to refresh.
    pub fn begin_refresh(&mut self) -> (r: RefreshStart)
        ensures
            old(self).busy ==> r is Ignored && *final(self) == *old(self),
            !old(self).busy && old(self).persisted.refresh_token is None ==> r is NeedsLogin
                && *final(self) == *old(self),
            !old(self).busy && old(self).persisted.refresh_token is Some ==> ({
                &&& final(self).busy
                &&& final(self).serial == bump(old(self).serial)
                &&& final(self).hydrated == old(self).hydrated
                &&& final(self).auth_state_path == old(self).auth_state_path
                &&& final(self).persisted@ == (AuthStateView {
                    last_error: None,
                    ..old(self).persisted@
                })
                &&& r matches RefreshStart::Started(p) && p@ == final(self).persisted@
            }),
    {
        if self.busy {
            return RefreshStart::Ignored;
        }
        if self.persisted.refresh_token.is_none() {
            return RefreshStart::NeedsLogin;
        }
        self.busy = true;
        self.serial = self.serial.saturating_add(1);
        self.persisted.last_error = None;
        RefreshStart::Started(self.persisted.duplicate())
    }

    /// Forgets the session; the signed-out state is then saved.
    pub fn sign_out(&mut self)
        ensures
            !final(self).busy,
            final(self).serial == bump(old(self).serial),
            final(self).hydrated == old(self).hydrated,
            final(self).auth_state_path == old(self).auth_state_path,
            final(self).persisted@ == signed_out_state_view(),
    {
        self.busy = false;
        self.serial = self.serial.saturating_add(1);
        self.persisted = PersistedAuthState::signed_out();
    }

    /// The signed-out state could not be saved: the reason is shown.
    pub fn sign_out_save_failed(&mut self, error: &str)
        ensures
            final(self).busy == old(self).busy,
            final(self).serial == bump(old(self).serial),
            final(self).hydrated == old(self).hydrated,
            final(self).auth_state_path == old(self).auth_state_path,
            final(self).persisted@ == (AuthStateView { last_error: Some(error@), ..old(self).persisted@ }),
    {
        self.persisted.last_error = Some(error.to_owned());
        self.serial = self.serial.saturating_add(1);
    }

    /// A sign-in or refresh finished with `updated`, which is then saved.
    pub fn finish_success(&mut self, updated: PersistedAuthState)
        ensures
            !final(self).busy,
            final(self).serial == bump(old(self).serial),
            final(self).hydrated == old(self).hydrated,
            final(self).auth_state_path == old(self).auth_state_path,
            final(self).persisted@ == updated@,
    {
        self.persisted = updated;
        self.busy = false;
        self.serial = self.serial.saturating_add(1);
    }

    /// The finished state could not be saved: it turns into an error.
    pub fn success_save_failed(&mut self, error: &str)
        ensures
            final(self).busy == old(self).busy,
            final(self).serial == old(self).serial,
            final(self).hydrated == old(self).hydrated,
            final(self).auth_state_path == old(self).auth_state_path,
            final(self).persisted@ == (AuthStateView {
                auth_status: "error"@,
                last_error: Some(error@),
                last_snapshot: Some(error_view(Some(error@))),
                ..old(self).persisted@
            }),
    {
        self.persisted.auth_status = "error".to_owned();
        self.persisted.last_error = Some(error.to_owned());
        self.persisted.last_snapshot = Some(SidecarSnapshot::error(Some(error)));
    }

    /// A failure ends the running work: the message is kept, the status
    /// changes where `operation_should_override_auth_status` says so, and an
    /// error snapshot is shown when there was none or the status is an error.
    pub fn record_error(&mut self, error_status: &str, error_message: &str)
        ensures
            !final(self).busy,
            final(self).serial == bump(old(self).serial),
            final(self).hydrated == old(self).hydrated,
            final(self).auth_state_path == old(self).auth_state_path,
            ({
                let status = if overrides_status(old(self).persisted@.auth_status, error_status@) {
                    error_status@
                } else {
                    old(self).persisted@.auth_status
                };
                final(self).persisted@ == (AuthStateView {
                    auth_status: status,
                    last_error: Some(error_message@),
                    last_snapshot: if old(self).persisted.last_snapshot is None || status
                        == "error"@ {
                        Some(error_view(Some(error_message@)))
                    } else {
                        old(self).persisted@.last_snapshot
                    },
                    ..old(self).persisted@
                })
            }),
    {
        self.busy = false;
        self.serial = self.serial.saturating_add(1);
        self.persisted.last_error = Some(error_message.to_owned());
        if operation_should_override_auth_status(self.persisted.auth_status.as_str(), error_status) {
            self.persisted.auth_status = error_status.to_owned();
        }
        if self.persisted.last_snapshot.is_none() || same_text(
            self.persisted.auth_status.as_str(),
            "error",
        ) {
            self.persisted.last_snapshot = Some(SidecarSnapshot::error(Some(error_message)));
        }
    }

    /// A sign-in or refresh failed with `message`.
    pub fn finish_failure(&mut self, operation: OperationKind, message: &str)
        ensures
            !final(self).busy,
            final(self).serial == bump(old(self).serial),
            final(self).hydrated == old(self).hydrated,
            final(self).auth_state_path == old(self).auth_state_path,
            ({
                let status = if overrides_status(old(self).persisted@.auth_status, operation.status()) {
                    operation.status()
                } else {
                    old(self).persisted@.auth_status
                };
                final(self).persisted@ == (AuthStateView {
                    auth_status: status,
                    last_error: Some(message@),
                    last_snapshot: if old(self).persisted.last_snapshot is None || status
                        == "error"@ {
                        Some(error_view(Some(message@)))
                    } else {
                        old(self).persisted@.last_snapshot
                    },
                    ..old(self).persisted@
                })
            }),
    {
        let status = operation.error_status();
        self.record_error(status.as_str(), message);
    }

    /// The error state could not be saved: the save failure is shown.
    pub fn error_save_failed(&mut self, save_error: &str)
        ensures
            final(self).busy == old(self).busy,
            final(self).serial == old(self).serial,
            final(self).hydrated == old(self).hydrated,
            final(self).auth_state_path == old(self).auth_state_path,
            final(self).persisted@ == (AuthStateView {
                last_error: Some(save_error@),
                last_snapshot: Some(error_view(Some(save_error@))),
                ..old(self).persisted@
            }),
    {
        self.persisted.last_error = Some(save_error.to_owned());
        self.persisted.last_snapshot = Some(SidecarSnapshot::error(Some(save_error)));
    }

    /// An error outside the auth flow (opening the browser) is shown.
    pub fn record_non_auth_error(&mut self, error_message: String)
        ensures
            final(self).busy == old(self).busy,
            final(self).serial == bump(old(self).serial),
            final(self).hydrated == old(self).hydrated,
            final(self).auth_state_path == old(self).auth_state_path,
            final(self).persisted@ == (AuthStateView {
                last_error: Some(error_message@),
                ..old(self).persisted@
            }),
    {
        self.serial = self.serial.saturating_add(1);
        self.persisted.last_error = Some(error_message);
    }
}

/// What `char::to_uppercase` yields for `c` (Unicode case mapping).
pub uninterp spec fn upper_case_of(c: char) -> Seq<char>;

/// What `char::to_lowercase` yields for `c` (Unicode case mapping).
pub uninterp spec fn lower_case_of(c: char) -> Seq<char>;

/// The characters std's `char::to_uppercase` gives for `c`.
#[verifier::external_body]
fn char_to_uppercase(c: char) -> (r: Vec<char>)
    ensures
        r@ == upper_case_of(c),
{
    c.to_uppercase().collect()
}

/// The characters std's `char::to_lowercase` gives for `c`.
#[verifier::external_body]
fn char_to_lowercase(c: char) -> (r: Vec<char>)
    ensures
        r@ == lower_case_of(c),
{
    c.to_lowercase().collect()
}

/// Every character of `s` lower-cased, in order.
pub open spec fn lowered(s: Seq<char>) -> Seq<char>
    decreases s.len(),
{
    if s.len() == 0 {
        Seq::empty()
    } else {
        lowered(s.drop_last()) + lower_case_of(s.last())
    }
}

/// `word` with its first character upper-cased and the rest lower-cased.
pub open spec fn capitalized(word: Seq<char>) -> Seq<char> {
    if word.len() == 0 {
        Seq::empty()
    } else {
        upper_case_of(word[0]) + lowered(word.drop_first())
    }
}

fn push_chars(out: &mut String, cs: &Vec<char>)
    ensures
        final(out)@ == old(out)@ + cs@,
{
    let ghost start = out@;
    for i in 0..cs.len()
        invariant
            out@ == start + cs@.take(i as int),
    {
        crate::text::push_char(out, cs[i]);
        assert(cs@.take(i + 1) == cs@.take(i as int).push(cs@[i as int]));
    }
    assert(cs@.take(cs@.len() as int) == cs@);
}

/// A plan word with its first letter upper-cased and the rest lower-cased.
pub fn capitalize_plan_word(word: &str) -> (r: String)
    ensures
        r@ == capitalized(word@),
{
    let cs = crate::text::chars_of(word);
    let mut r = String::new();
    if cs.len() == 0 {
        return r;
    }
    push_chars(&mut r, &char_to_uppercase(cs[0]));
    let ghost head = r@;
    let ghost rest = word@.drop_first();
    for i in 1..cs.len()
        invariant
            cs@ == word@,
            cs@.len() >= 1,
            rest == word@.drop_first(),
            r@ == head + lowered(rest.take(i - 1)),
    {
        push_chars(&mut r, &char_to_lowercase(cs[i]));
        assert(rest.take(i as int).drop_last() == rest.take(i - 1));
        assert(rest.take(i as int).last() == cs@[i as int]);
    }
    assert(rest.take(cs.len() - 1) == rest);
    r
}

/// A separator between plan words: white space, `-` or `_`.
pub open spec fn is_plan_separator(c: char) -> bool {
    crate::text::is_white_space(c) || c == '-' || c == '_'
}

/// The finished words of `s` and the word still open at its end.
pub open spec fn split_words_state(s: Seq<char>) -> (Seq<Seq<char>>, Seq<char>)
    decreases s.len(),
{
    if s.len() == 0 {
        (Seq::empty(), Seq::empty())
    } else {
        let (done, open) = split_words_state(s.drop_last());
        if is_plan_separator(s.last()) {
            if open.len() > 0 {
                (done.push(open), Seq::empty())
            } else {
                (done, Seq::empty())
            }
        } else {
            (done, open.push(s.last()))
        }
    }
}

/// The words of `s`: its maximal runs of characters other than separators.
pub open spec fn plan_words(s: Seq<char>) -> Seq<Seq<char>> {
    let (done, open) = split_words_state(s);
    if open.len() > 0 {
        done.push(open)
    } else {
        done
    }
}

/// `words` joined by single spaces.
pub open spec fn join_spaced(words: Seq<Seq<char>>) -> Seq<char>
    decreases words.len(),
{
    if words.len() == 0 {
        Seq::empty()
    } else if words.len() == 1 {
        words[0]
    } else {
        join_spaced(words.drop_last()) + " "@ + words.last()
    }
}

/// The plan line of the panel: the plan's words capitalized, prefixed with
/// `Codex` unless they already name it, after `Plan: `.
pub open spec fn plan_label(plan_type: Seq<char>) -> Seq<char> {
    let formatted = join_spaced(plan_words(plan_type).map_values(|w: Seq<char>| capitalized(w)));
    let lowered_ascii = formatted.map_values(|c: char| ascii_lower_char(c));
    let label = if contains_seq(lowered_ascii, "codex"@) {
        formatted
    } else {
        "Codex "@ + formatted
    };
    "Plan: "@ + label
}

fn is_plan_separator_char(c: char) -> (r: bool)
    ensures
        r == is_plan_separator(c),
{
    crate::text::is_white_space_char(c) || c == '-' || c == '_'
}

/// The words of `s`, in order.
fn split_plan_words(s: &str) -> (r: Vec<String>)
    ensures
        r@.map_values(|w: String| w@) == plan_words(s@),
{
    let cs = crate::text::chars_of(s);
    let mut done: Vec<String> = Vec::new();
    let mut open: Vec<char> = Vec::new();
    for i in 0..cs.len()
        invariant
            cs@ == s@,
            (done@.map_values(|w: String| w@), open@) == split_words_state(s@.take(i as int)),
    {
        let c = cs[i];
        assert(s@.take(i + 1).drop_last() == s@.take(i as int));
        assert(s@.take(i + 1).last() == c);
        if is_plan_separator_char(c) {
            if open.len() > 0 {
                let w = crate::text::string_of(&open);
                let ghost before = done@;
                done.push(w);
                assert(done@.map_values(|w: String| w@) =~= before.map_values(|w: String| w@).push(
                    open@,
                ));
                open = Vec::new();
            }
        } else {
            open.push(c);
        }
    }
    assert(s@.take(cs@.len() as int) == s@);
    if open.len() > 0 {
        let w = crate::text::string_of(&open);
        let ghost before = done@;
        done.push(w);
        assert(done@.map_values(|w: String| w@) =~= before.map_values(|w: String| w@).push(open@));
    }
    done
}

fn contains_codex(cs: &Vec<char>) -> (r: bool)
    ensures
        r == contains_seq(cs@.map_values(|c: char| ascii_lower_char(c)), "codex"@),
{
    proof {
        reveal_strlit("codex");
        assert("codex"@ =~= seq!['c', 'o', 'd', 'e', 'x']);
    }
    let ghost low = cs@.map_values(|c: char| ascii_lower_char(c));
    let n = cs.len();
    if n < 5 {
        assert(!contains_seq(low, "codex"@));
        return false;
    }
    let mut i: usize = 0;
    assert(ascii_lower_char('C') == 'c' && ascii_lower_char('O') == 'o' && ascii_lower_char('D')
        == 'd' && ascii_lower_char('E') == 'e' && ascii_lower_char('X') == 'x');
    while i <= n - 5
        invariant
            n >= 5,
            n == cs@.len(),
            "codex"@ == seq!['c', 'o', 'd', 'e', 'x'],
            low == cs@.map_values(|c: char| ascii_lower_char(c)),
            forall|k: int| 0 <= k < i && k + 5 <= n ==> #[trigger] low.subrange(k, k + 5) != "codex"@,
        decreases n - i,
    {
        let a = cs[i];
        let b = cs[i + 1];
        let c = cs[i + 2];
        let d = cs[i + 3];
        let e = cs[i + 4];
        let hit = (a == 'c' || a == 'C') && (b == 'o' || b == 'O') && (c == 'd' || c == 'D') && (
        d == 'e' || d == 'E') && (e == 'x' || e == 'X');
        let ghost window = low.subrange(i as int, i + 5);
        assert(window[0] == ascii_lower_char(a) && window[1] == ascii_lower_char(b) && window[2]
            == ascii_lower_char(c) && window[3] == ascii_lower_char(d) && window[4]
            == ascii_lower_char(e));
        if hit {
            assert(window =~= "codex"@);
            return true;
        }
        assert(window != "codex"@) by {
            if window == "codex"@ {
                assert(window[0] == 'c' && window[1] == 'o' && window[2] == 'd' && window[3] == 'e'
                    && window[4] == 'x');
            }
        }
        i = i + 1;
    }
    assert(!contains_seq(low, "codex"@)) by {
        if contains_seq(low, "codex"@) {
            let k = choose|k: int|
                0 <= k && k + 5 <= low.len() && #[trigger] low.subrange(k, k + 5) == "codex"@;
            assert(low.subrange(k, k + 5) == "codex"@);
        }
    }
    false
}

/// The plan line of the panel for a plan name.
pub fn format_plan_label(plan_type: &str) -> (r: String)
    ensures
        r@ == plan_label(plan_type@),
{
    let words = split_plan_words(plan_type);
    let ghost ws = words@.map_values(|w: String| w@);
    let mut formatted = String::new();
    for i in 0..words.len()
        invariant
            ws == words@.map_values(|w: String| w@),
            formatted@ == join_spaced(ws.take(i as int).map_values(|w: Seq<char>| capitalized(w))),
    {
        let ghost before = ws.take(i as int).map_values(|w: Seq<char>| capitalized(w));
        let ghost after = ws.take(i + 1).map_values(|w: Seq<char>| capitalized(w));
        assert(after.drop_last() =~= before);
        assert(after.last() == capitalized(words@[i as int]@));
        if i > 0 {
            formatted.append(" ");
        } else {
            assert(before.len() == 0);
            assert(formatted@ == Seq::<char>::empty());
        }
        let w = capitalize_plan_word(words[i].as_str());
        formatted.append(w.as_str());
        if i == 0 {
            assert(after.len() == 1);
            assert(formatted@ =~= after[0]);
        }
    }
    assert(ws.take(words@.len() as int) == ws);
    let fcs = crate::text::chars_of(formatted.as_str());
    let label = if contains_codex(&fcs) {
        formatted
    } else {
        join2("Codex ", formatted.as_str())
    };
    join2("Plan: ", label.as_str())
}

impl SidecarSnapshot {
    /// The panel's plan line, when the plan is known.
    pub fn panel_plan_label(&self) -> (r: Option<String>)
        ensures
            opt_view(r) == match self.plan_type {
                Some(p) => Some(plan_label(p@)),
                None => None,
            },
    {
        match &self.plan_type {
            Some(p) => Some(format_plan_label(p.as_str())),
            None => None,
        }
    }
}

/// The tokens kept in secure storage.
#[derive(Clone, Debug, PartialEq, Eq)]
pub struct StoredAuthSecrets {
    pub access_token: Option<String>,
    pub refresh_token: Option<String>,
}

impl StoredAuthSecrets {
    /// The tokens of `state`.
    pub fn from_state(state: &PersistedAuthState) -> (r: Self)
        ensures
            opt_view(r.access_token) == opt_view(state.access_token),
            opt_view(r.refresh_token) == opt_view(state.refresh_token),
    {
        StoredAuthSecrets {
            access_token: copy_opt(&state.access_token),
            refresh_token: copy_opt(&state.refresh_token),
        }
    }

    /// Whether there is no token at all.
    pub fn is_empty(&self) -> (r: bool)
        ensures
            r == (self.access_token is None && self.refresh_token is None),
    {
        self.access_token.is_none() && self.refresh_token.is_none()
    }
}

/// The keyring account the tokens are kept under.
pub const AUTH_KEYRING_ACCOUNT: &'static str = "codex-usage-plugin";

/// The keyring accounts to look for the tokens of the metadata file at
/// `metadata_path`, in order: the current account, then the legacy one
/// (when it differs).
pub fn keyring_accounts(metadata_path: &str) -> (r: Vec<String>)
    ensures
        r@.len() >= 1,
        r@[0]@ == AUTH_KEYRING_ACCOUNT@,
        ({
            let legacy = "codex-usage-plugin:"@ + hex_of(sha256_of(metadata_path.spec_bytes()));
            if legacy == AUTH_KEYRING_ACCOUNT@ {
                r@.len() == 1
            } else {
                r@.len() == 2 && r@[1]@ == legacy
            }
        }),
{
    let legacy = legacy_keyring_account(metadata_path);
    let mut accounts: Vec<String> = Vec::new();
    accounts.push(AUTH_KEYRING_ACCOUNT.to_owned());
    if !crate::text::same_text(legacy.as_str(), AUTH_KEYRING_ACCOUNT) {
        accounts.push(legacy);
    }
    accounts
}

/// What reading one keyring account gave.
#[derive(Debug)]
pub enum KeyringRead {
    /// The account holds these tokens.
    Found(StoredAuthSecrets),
    /// The account holds nothing.
    Missing,
    /// The read (or reading the tokens) failed.
    Failed(String),
}

/// What loading the tokens does after reading one account.
#[derive(Debug, PartialEq, Eq)]
pub enum KeyringLoadStep {
    /// Look at the next account.
    Next,
    /// The tokens are these; `migrate`: they came from the legacy account
    /// and are saved under the current one.
    Loaded { secrets: StoredAuthSecrets, migrate: bool },
    /// Loading fails with this error.
    Fail(String),
}

/// Tokens found under an account are loaded (moved to the current account
/// when found elsewhere), unless there are none, as when the account holds
/// nothing: then the next account is read; a failed read fails the load.
pub fn keyring_load_step(account: &str, read: KeyringRead) -> (r: KeyringLoadStep)
    ensures
        match read {
            KeyringRead::Found(secrets) => if secrets.access_token is None && secrets.refresh_token is None {
                r == KeyringLoadStep::Next
            } else {
                r == (KeyringLoadStep::Loaded { secrets, migrate: account@ != AUTH_KEYRING_ACCOUNT@ })
            },
            KeyringRead::Missing => r == KeyringLoadStep::Next,
            KeyringRead::Failed(e) => r == KeyringLoadStep::Fail(e),
        },
{
    match read {
        KeyringRead::Found(secrets) => {
            if secrets.is_empty() {
                KeyringLoadStep::Next
            } else {
                let migrate = !crate::text::same_text(account, AUTH_KEYRING_ACCOUNT);
                KeyringLoadStep::Loaded { secrets, migrate }
            }
        },
        KeyringRead::Missing => KeyringLoadStep::Next,
        KeyringRead::Failed(e) => KeyringLoadStep::Fail(e),
    }
}

/// What a token endpoint granted.
#[derive(Clone, Debug, PartialEq, Eq)]
pub struct TokenResponse {
    pub access_token: String,
    pub refresh_token: String,
    pub account_id: Option<String>,
    pub expires_at: u64,
    pub last_refresh_at: u64,
}

/// Takes in fresh tokens: the account is then authenticated.
pub fn apply_tokens(state: &mut PersistedAuthState, tokens: TokenResponse)
    ensures
        final(state)@ == (AuthStateView {
            access_token: Some(tokens.access_token@),
            refresh_token: Some(tokens.refresh_token@),
            account_id: opt_view(tokens.account_id),
            expires_at: tokens.expires_at,
            last_refresh_at: tokens.last_refresh_at,
            auth_status: "authenticated"@,
            ..old(state)@
        }),
{
    state.access_token = Some(tokens.access_token);
    state.refresh_token = Some(tokens.refresh_token);
    state.account_id = tokens.account_id;
    state.expires_at = tokens.expires_at;
    state.last_refresh_at = tokens.last_refresh_at;
    state.auth_status = "authenticated".to_owned();
}

/// A usage request the server refused with this HTTP status.
#[derive(Clone, Copy, Debug, PartialEq, Eq, Structural)]
pub struct UsageFetchError {
    pub status_code: u16,
}

impl UsageFetchError {
    /// The refusal for an HTTP status code.
    pub fn from_status(status_code: u16) -> (r: Self)
        ensures
            r.status_code == status_code,
    {
        UsageFetchError { status_code }
    }

    /// A 401 or 403 is worth one retry with a freshly refreshed token.
    pub fn should_retry_with_fresh_token(&self) -> (r: bool)
        ensures
            r == (self.status_code == 401 || self.status_code == 403),
    {
        self.status_code == 401 || self.status_code == 403
    }
}

/// What the host does with the status of a usage request.
#[derive(Debug, PartialEq, Eq)]
pub enum UsageStatusStep {
    /// The request succeeded: read the usage from the body.
    Proceed,
    /// The token was refused: refresh it and request once more.
    RetryWithFreshToken,
    /// The request failed with this error.
    Fail(String),
}

/// How a usage request's HTTP status is handled on attempt `attempt` (0 for
/// the first): a 2xx status proceeds; a 401 or 403 is retried once with a
/// fresh token, and fails on the retry; any other status fails.
pub fn usage_status_step(attempt: u32, status_code: u16) -> (r: UsageStatusStep)
    ensures
        (status_code == 401 || status_code == 403) && attempt == 0 ==> r == UsageStatusStep::RetryWithFreshToken,
        (status_code == 401 || status_code == 403) && attempt > 0 ==> (r matches UsageStatusStep::Fail(m) && m@
            == "usage request failed with retryable HTTP "@ + crate::text::decimal(status_code as nat)),
        200 <= status_code < 300 ==> r == UsageStatusStep::Proceed,
        !(status_code == 401 || status_code == 403) && !(200 <= status_code < 300) ==> (r matches UsageStatusStep::Fail(
            m,
        ) && m@ == "usage request failed with HTTP "@ + crate::text::decimal(status_code as nat)),
{
    let refusal = UsageFetchError::from_status(status_code);
    if refusal.should_retry_with_fresh_token() {
        if attempt == 0 {
            UsageStatusStep::RetryWithFreshToken
        } else {
            let mut m = "usage request failed with retryable HTTP ".to_owned();
            crate::text::push_decimal(&mut m, status_code as u64);
            UsageStatusStep::Fail(m)
        }
    } else if 200 <= status_code && status_code < 300 {
        UsageStatusStep::Proceed
    } else {
        let mut m = "usage request failed with HTTP ".to_owned();
        crate::text::push_decimal(&mut m, status_code as u64);
        UsageStatusStep::Fail(m)
    }
}

/// Whether the access token must be refreshed before use at `now`
/// (milliseconds): when asked to, when there is none, when its expiry is
/// unknown, or when it expires within five minutes.
pub open spec fn token_needs_refresh(state: AuthStateView, now: nat, force: bool) -> bool {
    force || state.access_token is None || state.expires_at == 0 || state.expires_at <= (if now
        + 300_000 <= u64::MAX {
        now + 300_000
    } else {
        u64::MAX as nat
    })
}

/// Whether the access token must be refreshed before a request at `now`.
pub fn access_token_needs_refresh(state: &PersistedAuthState, now: u64, force_refresh: bool) -> (r: bool)
    ensures
        r == token_needs_refresh(state@, now as nat, force_refresh),
{
    let expires_soon = state.expires_at == 0 || state.expires_at <= now.saturating_add(300_000);
    force_refresh || state.access_token.is_none() || expires_soon
}

/// The access token to send once any refresh is done.
pub fn usable_access_token(state: &PersistedAuthState) -> (r: Result<String, String>)
    ensures
        match r {
            Ok(t) => state.access_token matches Some(a) && t@ == a@,
            Err(m) => state.access_token is None && m@ == "missing access token after refresh"@,
        },
{
    match &state.access_token {
        Some(t) => Ok(t.clone()),
        None => Err("missing access token after refresh".to_owned()),
    }
}

/// What reading secure storage gave.
#[derive(Debug)]
pub enum SecretLoad {
    Loaded(StoredAuthSecrets),
    Missing,
    Failed(String),
}

/// A loaded state and what loading it asks to be written back.
#[derive(Debug)]
pub struct LoadPlan {
    pub state: PersistedAuthState,
    /// Tokens found in the metadata file, to move into secure storage.
    pub migrate_secrets: Option<StoredAuthSecrets>,
    /// Whether the metadata file is to be rewritten without its tokens.
    pub persist_metadata: bool,
}

/// The state after secure storage could not be read.
pub open spec fn storage_failed_view(state: AuthStateView, message: Seq<char>) -> AuthStateView {
    AuthStateView {
        access_token: None,
        refresh_token: None,
        auth_status: "signed-out"@,
        last_snapshot: Some(signed_out_view()),
        last_error: Some("Secure auth storage unavailable: "@ + message + ". Please sign in again."@),
        ..state
    }
}

/// The state read from the metadata file once secure storage has been
/// consulted.
pub open spec fn reconciled_view(state: AuthStateView, load: SecretLoad) -> AuthStateView {
    match load {
        SecretLoad::Loaded(secrets) => AuthStateView {
            access_token: opt_view(secrets.access_token),
            refresh_token: opt_view(secrets.refresh_token),
            ..state
        },
        SecretLoad::Missing => state,
        SecretLoad::Failed(message) => storage_failed_view(state, message@),
    }
}

/// Combines the state read from the metadata file with what secure storage
/// holds: stored tokens win; tokens left in the file move to secure storage;
/// a storage failure signs the account out.
pub fn reconcile_secrets(state: PersistedAuthState, load: SecretLoad) -> (r: LoadPlan)
    ensures
        r.state@ == reconciled_view(state@, load),
        match load {
            SecretLoad::Loaded(secrets) => {
                &&& r.state@ == (AuthStateView {
                    access_token: opt_view(secrets.access_token),
                    refresh_token: opt_view(secrets.refresh_token),
                    ..state@
                })
                &&& r.migrate_secrets is None
                &&& !r.persist_metadata
            },
            SecretLoad::Missing => if state.access_token is None && state.refresh_token is None {
                r.state@ == state@ && r.migrate_secrets is None && !r.persist_metadata
            } else {
                &&& r.state@ == state@
                &&& r.migrate_secrets matches Some(m) && opt_view(m.access_token) == opt_view(
                    state.access_token,
                ) && opt_view(m.refresh_token) == opt_view(state.refresh_token)
                &&& r.persist_metadata
            },
            SecretLoad::Failed(message) => {
                &&& r.state@ == storage_failed_view(state@, message@)
                &&& r.migrate_secrets is None
                &&& !r.persist_metadata
            },
        },
{
    let mut state = state;
    let legacy = StoredAuthSecrets::from_state(&state);
    match load {
        SecretLoad::Loaded(secrets) => {
            state.access_token = secrets.access_token;
            state.refresh_token = secrets.refresh_token;
            LoadPlan { state, migrate_secrets: None, persist_metadata: false }
        },
        SecretLoad::Missing => {
            if legacy.is_empty() {
                LoadPlan { state, migrate_secrets: None, persist_metadata: false }
            } else {
                LoadPlan { state, migrate_secrets: Some(legacy), persist_metadata: true }
            }
        },
        SecretLoad::Failed(message) => {
            state.access_token = None;
            state.refresh_token = None;
            state.auth_status = "signed-out".to_owned();
            state.last_snapshot = Some(SidecarSnapshot::signed_out());
            state.last_error = Some(join3(
                "Secure auth storage unavailable: ",
                message.as_str(),
                ". Please sign in again.",
            ));
            LoadPlan { state, migrate_secrets: None, persist_metadata: false }
        },
    }
}

pub open spec fn interrupted_sign_in_message() -> Seq<char> {
    "Previous ChatGPT sign-in did not complete. Please sign in again."@
}

/// A state still pending when loaded after recovery: a sign-in that never
/// finished leaves the session it had (authenticated with a refresh token,
/// signed out without one), loses a pending snapshot and says why.
pub open spec fn recovered_view(state: AuthStateView) -> AuthStateView {
    if state.auth_status == "pending"@ {
        AuthStateView {
            auth_status: if state.refresh_token is Some {
                "authenticated"@
            } else {
                "signed-out"@
            },
            last_snapshot: match state.last_snapshot {
                Some(s) => if s.auth_status == "pending"@ {
                    None
                } else {
                    Some(s)
                },
                None => None,
            },
            last_error: Some(interrupted_sign_in_message()),
            ..state
        }
    } else {
        state
    }
}

/// A state still pending when loaded belongs to a sign-in that never
/// finished: it becomes authenticated when a session exists and signed out
/// otherwise, drops a pending snapshot, and says why. The flag tells whether
/// the state changed and is to be saved.
pub fn recover_interrupted_sign_in(state: PersistedAuthState) -> (r: (PersistedAuthState, bool))
    ensures
        r.0@ == recovered_view(state@),
        r.1 == (state@.auth_status == "pending"@),
{
    let mut state = state;
    if !same_text(state.auth_status.as_str(), "pending") {
        return (state, false);
    }
    state.auth_status = if state.refresh_token.is_some() {
        "authenticated".to_owned()
    } else {
        "signed-out".to_owned()
    };
    let drop_snapshot = match &state.last_snapshot {
        Some(s) => s.is_pending(),
        None => false,
    };
    if drop_snapshot {
        state.last_snapshot = None;
    }
    state.last_error = Some("Previous ChatGPT sign-in did not complete. Please sign in again.".to_owned());
    (state, true)
}

/// What loading a persisted state comes to, with what is written back on
/// the way.
#[derive(Debug)]
pub struct LoadedAuthState {
    /// Tokens found in the metadata file, to move into secure storage.
    pub migrate_secrets: Option<StoredAuthSecrets>,
    /// The metadata to rewrite without its tokens once they have moved.
    pub metadata_to_save: Option<PersistedAuthState>,
    /// The state as loaded.
    pub state: PersistedAuthState,
    /// Whether the loaded state is to be saved because an unfinished sign-in
    /// was recovered.
    pub save_loaded: bool,
}

/// Loads a state read from the metadata file: reconciles it with secure
/// storage, then recovers a sign-in that never finished. The state that
/// comes out is never pending, and a recovered state is written back.
pub fn settle_loaded_auth_state(state: PersistedAuthState, load: SecretLoad) -> (r: LoadedAuthState)
    ensures
        r.state@ == recovered_view(reconciled_view(state@, load)),
        r.state@.auth_status != "pending"@,
        r.save_loaded == (reconciled_view(state@, load).auth_status == "pending"@),
        r.save_loaded ==> r.state@.last_error == Some(interrupted_sign_in_message()),
        r.save_loaded ==> r.state@.auth_status == (if r.state@.refresh_token is Some {
            "authenticated"@
        } else {
            "signed-out"@
        }),
        match load {
            SecretLoad::Missing => if state.access_token is None && state.refresh_token is None {
                r.migrate_secrets is None && r.metadata_to_save is None
            } else {
                &&& r.migrate_secrets matches Some(m) && opt_view(m.access_token) == opt_view(
                    state.access_token,
                ) && opt_view(m.refresh_token) == opt_view(state.refresh_token)
                &&& r.metadata_to_save matches Some(saved) && saved@ == state@
            },
            _ => r.migrate_secrets is None && r.metadata_to_save is None,
        },
{
    let plan = reconcile_secrets(state, load);
    let metadata_to_save = if plan.persist_metadata {
        Some(plan.state.duplicate())
    } else {
        None
    };
    proof {
        lemma_recovered_is_settled(plan.state@);
    }
    let (loaded, changed) = recover_interrupted_sign_in(plan.state);
    LoadedAuthState {
        migrate_secrets: plan.migrate_secrets,
        metadata_to_save,
        state: loaded,
        save_loaded: changed,
    }
}

/// Recovery settles every state: none is pending afterwards; a pending one
/// with a refresh token becomes authenticated, one without signs out, and
/// either says that the sign-in did not complete; any other state is kept.
pub proof fn lemma_recovered_is_settled(state: AuthStateView)
    ensures
        recovered_view(state).auth_status != "pending"@,
        state.auth_status == "pending"@ && state.refresh_token is Some ==> recovered_view(
            state,
        ).auth_status == "authenticated"@,
        state.auth_status == "pending"@ && state.refresh_token is None ==> recovered_view(
            state,
        ).auth_status == "signed-out"@,
        state.auth_status == "pending"@ ==> recovered_view(state).last_error == Some(
            interrupted_sign_in_message(),
        ),
        state.auth_status != "pending"@ ==> recovered_view(state) == state,
{
    reveal_strlit("pending");
    reveal_strlit("authenticated");
    reveal_strlit("signed-out");
    assert("pending"@.len() != "authenticated"@.len());
    assert("pending"@.len() != "signed-out"@.len());
}

/// SHA-256 of `data` (computed by the `sha2` crate).
pub uninterp spec fn sha256_of(data: Seq<u8>) -> Seq<u8>;

/// The SHA-256 digest of `data`, from `sha2::Sha256::digest`: 32 bytes.
#[verifier::external_body]
fn sha256(data: &[u8]) -> (r: Vec<u8>)
    ensures
        r@ == sha256_of(data@),
        r@.len() == 32,
{
    sha2::Sha256::digest(data).to_vec()
}

pub open spec fn hex_digit(n: nat) -> char {
    if n < 10 {
        crate::text::digit_char(n)
    } else if n == 10 {
        'a'
    } else if n == 11 {
        'b'
    } else if n == 12 {
        'c'
    } else if n == 13 {
        'd'
    } else if n == 14 {
        'e'
    } else {
        'f'
    }
}

/// Each byte as two lower-case hex digits.
pub open spec fn hex_of(bytes: Seq<u8>) -> Seq<char>
    decreases bytes.len(),
{
    if bytes.len() == 0 {
        Seq::empty()
    } else {
        hex_of(bytes.drop_last()) + seq![
            hex_digit((bytes.last() / 16) as nat),
            hex_digit((bytes.last() % 16) as nat),
        ]
    }
}

fn hex_char(n: u8) -> (c: char)
    requires
        n < 16,
    ensures
        c == hex_digit(n as nat),
{
    if n < 10 {
        if n == 0 { '0' }
        else if n == 1 { '1' }
        else if n == 2 { '2' }
        else if n == 3 { '3' }
        else if n == 4 { '4' }
        else if n == 5 { '5' }
        else if n == 6 { '6' }
        else if n == 7 { '7' }
        else if n == 8 { '8' }
        else { '9' }
    } else if n == 10 { 'a' }
    else if n == 11 { 'b' }
    else if n == 12 { 'c' }
    else if n == 13 { 'd' }
    else if n == 14 { 'e' }
    else { 'f' }
}

/// The name of the secret scope of a metadata file: the lower-case hex
/// SHA-256 of its path.
pub fn stable_secret_scope(path: &str) -> (r: String)
    ensures
        r@ == hex_of(sha256_of(path.spec_bytes())),
{
    let digest = sha256(path.as_bytes());
    let mut scope = String::new();
    for i in 0..digest.len()
        invariant
            digest@ == sha256_of(path.spec_bytes()),
            scope@ == hex_of(digest@.take(i as int)),
    {
        let b = digest[i];
        crate::text::push_char(&mut scope, hex_char(b / 16));
        crate::text::push_char(&mut scope, hex_char(b % 16));
        assert(digest@.take(i + 1).drop_last() == digest@.take(i as int));
        assert(digest@.take(i + 1).last() == b);
    }
    assert(digest@.take(digest@.len() as int) == digest@);
    scope
}

/// The keyring account older builds kept the tokens under.
pub fn legacy_keyring_account(metadata_path: &str) -> (r: String)
    ensures
        r@ == "codex-usage-plugin:"@ + hex_of(sha256_of(metadata_path.spec_bytes())),
{
    join2("codex-usage-plugin:", stable_secret_scope(metadata_path).as_str())
}

/// URL-safe base64 without padding (the `base64` crate's encoding).
pub uninterp spec fn base64_url_of(data: Seq<u8>) -> Seq<char>;

/// What URL-safe base64 without padding decodes `text` to, if it is valid.
pub uninterp spec fn base64_url_decoded(text: Seq<char>) -> Option<Seq<u8>>;

/// `base64::engine::general_purpose::URL_SAFE_NO_PAD.encode`.
#[verifier::external_body]
fn base64_url_encode(bytes: &[u8]) -> (r: String)
    ensures
        r@ == base64_url_of(bytes@),
{
    base64::engine::general_purpose::URL_SAFE_NO_PAD.encode(bytes)
}

/// `base64::engine::general_purpose::URL_SAFE_NO_PAD.decode`, `None` when
/// the text is not valid.
#[verifier::external_body]
fn base64_url_decode(text: &str) -> (r: Option<Vec<u8>>)
    ensures
        match r {
            Some(b) => base64_url_decoded(text@) == Some(b@),
            None => base64_url_decoded(text@) is None,
        },
{
    base64::engine::general_purpose::URL_SAFE_NO_PAD.decode(text).ok()
}

/// The PKCE verifier of a sign-in: base64 of its random bytes.
pub fn pkce_verifier(random_bytes: &[u8]) -> (r: String)
    ensures
        r@ == base64_url_of(random_bytes@),
{
    base64_url_encode(random_bytes)
}

/// The PKCE challenge of a verifier: base64 of the verifier's SHA-256.
pub fn pkce_challenge(verifier: &str) -> (r: String)
    ensures
        r@ == base64_url_of(sha256_of(verifier.spec_bytes())),
{
    let digest = sha256(verifier.as_bytes());
    base64_url_encode(digest.as_slice())
}

/// The OAuth `state` value: base64 of the random bytes.
pub fn oauth_state_value(random_bytes: &[u8]) -> (r: String)
    ensures
        r@ == base64_url_of(random_bytes@),
{
    base64_url_encode(random_bytes)
}

/// The text between the first and the second `.` of a token (or its end).
pub open spec fn second_segment(token: Seq<char>) -> Option<Seq<char>> {
    if exists|i: int| 0 <= i < token.len() && token[i] == '.' {
        let d = choose|i: int|
            0 <= i < token.len() && token[i] == '.' && forall|j: int| 0 <= j < i ==> token[j] != '.';
        let rest = token.subrange(d + 1, token.len() as int);
        if exists|i: int| 0 <= i < rest.len() && rest[i] == '.' {
            let e = choose|i: int|
                0 <= i < rest.len() && rest[i] == '.' && forall|j: int| 0 <= j < i ==> rest[j] != '.';
            Some(rest.subrange(0, e))
        } else {
            Some(rest)
        }
    } else {
        None
    }
}

/// Position of the first `.` of `cs` at or after `from`.
fn find_dot(cs: &Vec<char>, from: usize) -> (r: Option<usize>)
    requires
        from <= cs@.len(),
    ensures
        match r {
            Some(i) => from <= i < cs@.len() && cs@[i as int] == '.' && forall|j: int|
                from <= j < i ==> cs@[j] != '.',
            None => forall|j: int| from <= j < cs@.len() ==> cs@[j] != '.',
        },
{
    let mut i = from;
    while i < cs.len()
        invariant
            from <= i <= cs@.len(),
            forall|j: int| from <= j < i ==> cs@[j] != '.',
        decreases cs@.len() - i,
    {
        if cs[i] == '.' {
            return Some(i);
        }
        i = i + 1;
    }
    None
}

/// The claims part of a token: its second `.`-separated segment, decoded
/// from base64.
pub fn token_claims_bytes(token: &str) -> (r: Option<Vec<u8>>)
    ensures
        match second_segment(token@) {
            Some(seg) => match r {
                Some(b) => base64_url_decoded(seg) == Some(b@),
                None => base64_url_decoded(seg) is None,
            },
            None => r is None,
        },
{
    let cs = crate::text::chars_of(token);
    let d = match find_dot(&cs, 0) {
        Some(d) => d,
        None => return None,
    };
    proof {
        let w = choose|i: int|
            0 <= i < token@.len() && token@[i] == '.' && forall|j: int| 0 <= j < i ==> token@[j] != '.';
        assert(w == d as int) by {
            if w < d {
                assert(cs@[w] != '.');
            } else if w > d {
                assert(token@[d as int] == '.');
            }
        }
    }
    assert(d < cs.len());
    let ghost rest = token@.subrange(d + 1, token@.len() as int);
    let end = match find_dot(&cs, d + 1) {
        Some(e) => {
            proof {
                let k = e - (d + 1);
                assert(rest[k] == '.');
                let w = choose|i: int|
                    0 <= i < rest.len() && rest[i] == '.' && forall|j: int| 0 <= j < i ==> rest[j] != '.';
                assert(w == k) by {
                    if w < k {
                        assert(cs@[w + d + 1] != '.');
                    } else if w > k {
                        assert(rest[k] == '.');
                    }
                }
                assert(token@.subrange(d + 1, e as int) =~= rest.subrange(0, k));
            }
            e
        },
        None => {
            proof {
                assert forall|i: int| 0 <= i < rest.len() implies rest[i] != '.' by {
                    assert(rest[i] == cs@[i + d + 1]);
                }
                assert(token@.subrange(d + 1, cs@.len() as int) == rest);
            }
            cs.len()
        },
    };
    let segment = token.substring_char(d + 1, end);
    base64_url_decode(segment)
}

/// The text of member `key`, if it is a string.
pub open spec fn text_member(ms: Seq<JsonMember>, key: Seq<char>) -> Option<Seq<char>> {
    text_of(member(ms, key))
}

/// Member `key` read as an integer that fits in `u32`.
pub open spec fn u32_member(ms: Seq<JsonMember>, key: Seq<char>) -> Option<u32> {
    match integer_of(member(ms, key)) {
        Some(n) => if n <= u32::MAX {
            Some(n as u32)
        } else {
            None
        },
        None => None,
    }
}

/// Member `key` read as an integer.
pub open spec fn u64_member(ms: Seq<JsonMember>, key: Seq<char>) -> Option<u64> {
    integer_of(member(ms, key))
}

pub open spec fn cap100(n: u32) -> u32 {
    if n <= 100 {
        n
    } else {
        100
    }
}

pub open spec fn text_or(o: Option<Seq<char>>, default: Seq<char>) -> Seq<char> {
    match o {
        Some(t) => t,
        None => default,
    }
}

pub open spec fn u32_or_zero(o: Option<u32>) -> u32 {
    match o {
        Some(n) => n,
        None => 0,
    }
}

pub open spec fn u64_or_zero(o: Option<u64>) -> u64 {
    match o {
        Some(n) => n,
        None => 0,
    }
}

pub open spec fn opt_value(v: Option<&JsonValue>) -> Option<JsonValue> {
    match v {
        Some(x) => Some(*x),
        None => None,
    }
}

/// Member `field_name` as text, if it is text.
pub fn optional_string(object: &Vec<JsonMember>, field_name: &str) -> (r: Option<String>)
    ensures
        opt_view(r) == text_member(object@, field_name@),
{
    crate::json::as_text(get_member(object, field_name))
}

/// Member `field_name` as text, or the error naming the missing field.
pub fn required_string(object: &Vec<JsonMember>, field_name: &str) -> (r: Result<String, String>)
    ensures
        match r {
            Ok(t) => text_member(object@, field_name@) == Some(t@),
            Err(m) => text_member(object@, field_name@) is None && m@ == "missing `"@ + field_name@
                + "`"@,
        },
{
    match optional_string(object, field_name) {
        Some(t) => Ok(t),
        None => Err(join3("missing `", field_name, "`")),
    }
}

/// Member `field_name` as a non-negative integer, if it is one.
pub fn optional_u64(object: &Vec<JsonMember>, field_name: &str) -> (r: Option<u64>)
    ensures
        r == u64_member(object@, field_name@),
{
    read_integer(get_member(object, field_name))
}

/// Member `field_name` as a non-negative integer that fits in 32 bits, if it is
/// one.
pub fn optional_u32(object: &Vec<JsonMember>, field_name: &str) -> (r: Option<u32>)
    ensures
        r == u32_member(object@, field_name@),
{
    match optional_u64(object, field_name) {
        Some(n) => if n <= 4_294_967_295u64 {
            Some(n as u32)
        } else {
            None
        },
        None => None,
    }
}

/// The card an entry of `usage_limits` describes: it needs an id and a title.
#[verifier::opaque]
pub open spec fn card_from_json(item: JsonValue) -> Option<LimitCardView> {
    match item {
        JsonValue::Object(ms) => match (text_member(ms@, "id"@), text_member(ms@, "title"@)) {
            (Some(id), Some(title)) => Some(
                LimitCardView {
                    id,
                    title,
                    remaining_percent: cap100(u32_or_zero(u32_member(ms@, "remaining_percent"@))),
                    resets_at_label: text_member(ms@, "resets_at_label"@),
                },
            ),
            _ => None,
        },
        _ => None,
    }
}

/// The cards of a stored list, skipping entries that are not cards.
pub open spec fn cards_from_json(items: Seq<JsonValue>) -> Seq<LimitCardView>
    decreases items.len(),
{
    if items.len() == 0 {
        Seq::empty()
    } else {
        let rest = cards_from_json(items.drop_last());
        match card_from_json(items.last()) {
            Some(c) => rest.push(c),
            None => rest,
        }
    }
}

pub open spec fn usage_limits_from_json(v: Option<JsonValue>) -> Seq<LimitCardView> {
    match v {
        Some(JsonValue::Array(items)) => cards_from_json(items@),
        _ => Seq::empty(),
    }
}

pub open spec fn credits_from_json(v: Option<JsonValue>) -> CreditsView {
    match v {
        Some(JsonValue::Object(ms)) => CreditsView {
            balance_label: text_or(text_member(ms@, "balance_label"@), "$0.00"@),
            detail: text_or(text_member(ms@, "detail"@), default_credits_detail()),
        },
        _ => default_credits_view(),
    }
}

/// A stored snapshot: `auth_status` is required; the labels have defaults;
/// percentages are capped at 100.
#[verifier::opaque]
pub open spec fn snapshot_from_json(v: JsonValue) -> Result<SnapshotView, Seq<char>> {
    match v {
        JsonValue::Object(ms) => match text_member(ms@, "auth_status"@) {
            Some(auth_status) => Ok(
                SnapshotView {
                    auth_status,
                    plan_type: text_member(ms@, "plan_type"@),
                    status_label: text_or(text_member(ms@, "status_label"@), "ChatGPT connected"@),
                    detail: text_or(text_member(ms@, "detail"@), "Codex usage is available."@),
                    primary_used_percent: cap100(
                        u32_or_zero(u32_member(ms@, "primary_used_percent"@)),
                    ),
                    usage_limits: usage_limits_from_json(member(ms@, "usage_limits"@)),
                    credits_summary: credits_from_json(member(ms@, "credits_summary"@)),
                },
            ),
            None => Err("missing `"@ + "auth_status"@ + "`"@),
        },
        _ => Err("snapshot must be a JSON object"@),
    }
}

fn parse_usage_card(item: &JsonValue) -> (r: Option<UsageLimitCard>)
    ensures
        match r {
            Some(c) => card_from_json(*item) == Some(c@),
            None => card_from_json(*item) is None,
        },
{
    reveal(card_from_json);
    match item {
        JsonValue::Object(ms) => {
            let id = match optional_string(ms, "id") {
                Some(t) => t,
                None => return None,
            };
            let title = match optional_string(ms, "title") {
                Some(t) => t,
                None => return None,
            };
            let p = match optional_u32(ms, "remaining_percent") {
                Some(n) => n,
                None => 0,
            };
            Some(
                UsageLimitCard {
                    id,
                    title,
                    remaining_percent: if p <= 100 {
                        p
                    } else {
                        100
                    },
                    resets_at_label: optional_string(ms, "resets_at_label"),
                },
            )
        },
        _ => None,
    }
}

/// The cards of a stored `usage_limits` list.
pub fn parse_usage_limits(value: Option<&JsonValue>) -> (r: Vec<UsageLimitCard>)
    ensures
        cards_view(r@) == usage_limits_from_json(opt_value(value)),
{
    let items = match value {
        Some(JsonValue::Array(items)) => items,
        _ => {
            let out: Vec<UsageLimitCard> = Vec::new();
            assert(cards_view(out@) =~= Seq::<LimitCardView>::empty());
            return out;
        },
    };
    let mut out: Vec<UsageLimitCard> = Vec::new();
    for i in 0..items.len()
        invariant
            cards_view(out@) == cards_from_json(items@.take(i as int)),
    {
        assert(items@.take(i + 1).drop_last() == items@.take(i as int));
        assert(items@.take(i + 1).last() == items@[i as int]);
        match parse_usage_card(&items[i]) {
            Some(c) => {
                let ghost before = out@;
                out.push(c);
                assert(cards_view(out@) =~= cards_view(before).push(c@));
            },
            None => {},
        }
    }
    assert(items@.take(items@.len() as int) == items@);
    out
}

/// The stored credits card, with defaults for what is missing.
pub fn parse_credits_summary(value: Option<&JsonValue>) -> (r: CreditsSummary)
    ensures
        r@ == credits_from_json(opt_value(value)),
{
    match value {
        Some(JsonValue::Object(ms)) => CreditsSummary {
            balance_label: match optional_string(ms, "balance_label") {
                Some(t) => t,
                None => "$0.00".to_owned(),
            },
            detail: match optional_string(ms, "detail") {
                Some(t) => t,
                None => "Use credits to send messages beyond your plan limit.".to_owned(),
            },
        },
        _ => CreditsSummary::zero_balance(),
    }
}

/// Reads a stored snapshot.
pub fn parse_sidecar_snapshot(value: &JsonValue) -> (r: Result<SidecarSnapshot, String>)
    ensures
        match r {
            Ok(s) => snapshot_from_json(*value) == Ok::<SnapshotView, Seq<char>>(s@),
            Err(m) => snapshot_from_json(*value) == Err::<SnapshotView, Seq<char>>(m@),
        },
{
    reveal(snapshot_from_json);
    let ms = match value {
        JsonValue::Object(ms) => ms,
        _ => return Err("snapshot must be a JSON object".to_owned()),
    };
    let auth_status = match required_string(ms, "auth_status") {
        Ok(t) => t,
        Err(m) => {
            return Err(m);
        },
    };
    let used = match optional_u32(ms, "primary_used_percent") {
        Some(n) => n,
        None => 0,
    };
    Ok(
        SidecarSnapshot {
            auth_status,
            plan_type: optional_string(ms, "plan_type"),
            status_label: match optional_string(ms, "status_label") {
                Some(t) => t,
                None => "ChatGPT connected".to_owned(),
            },
            detail: match optional_string(ms, "detail") {
                Some(t) => t,
                None => "Codex usage is available.".to_owned(),
            },
            primary_used_percent: if used <= 100 {
                used
            } else {
                100
            },
            usage_limits: parse_usage_limits(get_member(ms, "usage_limits")),
            credits_summary: parse_credits_summary(get_member(ms, "credits_summary")),
        },
    )
}

/// The status a stored state without one has: authenticated with a
/// session, an error with a recorded error, else signed out.
pub open spec fn inferred_status(ms: Seq<JsonMember>) -> Seq<char> {
    match text_member(ms, "auth_status"@) {
        Some(a) => a,
        None => if text_member(ms, "refresh_token"@) is Some {
            "authenticated"@
        } else if text_member(ms, "last_error"@) is Some {
            "error"@
        } else {
            "signed-out"@
        },
    }
}

/// A stored auth state; a stored snapshot that cannot be read fails it.
pub open spec fn state_from_json(v: JsonValue) -> Result<AuthStateView, Seq<char>> {
    match v {
        JsonValue::Object(ms) => {
            let snapshot: Result<Option<SnapshotView>, Seq<char>> = match member(
                ms@,
                "last_snapshot"@,
            ) {
                None => Ok(None),
                Some(JsonValue::Null) => Ok(None),
                Some(x) => match snapshot_from_json(x) {
                    Ok(s) => Ok(Some(s)),
                    Err(e) => Err(e),
                },
            };
            match snapshot {
                Ok(last_snapshot) => Ok(
                    AuthStateView {
                        auth_status: inferred_status(ms@),
                        access_token: text_member(ms@, "access_token"@),
                        refresh_token: text_member(ms@, "refresh_token"@),
                        account_id: text_member(ms@, "account_id"@),
                        expires_at: u64_or_zero(u64_member(ms@, "expires_at"@)),
                        last_refresh_at: u64_or_zero(u64_member(ms@, "last_refresh_at"@)),
                        last_snapshot,
                        last_fetched_at: u64_or_zero(u64_member(ms@, "last_fetched_at"@)),
                        last_error: text_member(ms@, "last_error"@),
                    },
                ),
                Err(e) => Err(e),
            }
        },
        _ => Err("persisted auth state must be a JSON object"@),
    }
}

/// Reads a stored auth state.
pub fn parse_persisted_auth_state(value: &JsonValue) -> (r: Result<PersistedAuthState, String>)
    ensures
        match r {
            Ok(s) => state_from_json(*value) == Ok::<AuthStateView, Seq<char>>(s@),
            Err(m) => state_from_json(*value) == Err::<AuthStateView, Seq<char>>(m@),
        },
{
    let ms = match value {
        JsonValue::Object(ms) => ms,
        _ => return Err("persisted auth state must be a JSON object".to_owned()),
    };
    let refresh_token = optional_string(ms, "refresh_token");
    let auth_status = match optional_string(ms, "auth_status") {
        Some(a) => a,
        None => if refresh_token.is_some() {
            "authenticated".to_owned()
        } else if optional_string(ms, "last_error").is_some() {
            "error".to_owned()
        } else {
            "signed-out".to_owned()
        },
    };
    let last_snapshot = match get_member(ms, "last_snapshot") {
        None => None,
        Some(JsonValue::Null) => None,
        Some(x) => match parse_sidecar_snapshot(x) {
            Ok(s) => Some(s),
            Err(e) => return Err(e),
        },
    };
    Ok(
        PersistedAuthState {
            auth_status,
            access_token: optional_string(ms, "access_token"),
            refresh_token,
            account_id: optional_string(ms, "account_id"),
            expires_at: match optional_u64(ms, "expires_at") {
                Some(n) => n,
                None => 0,
            },
            last_refresh_at: match optional_u64(ms, "last_refresh_at") {
                Some(n) => n,
                None => 0,
            },
            last_snapshot,
            last_fetched_at: match optional_u64(ms, "last_fetched_at") {
                Some(n) => n,
                None => 0,
            },
            last_error: optional_string(ms, "last_error"),
        },
    )
}

/// The keys a stored card has, in order.
pub open spec fn card_keys(c: LimitCardView) -> Seq<Seq<char>> {
    seq!["id"@, "remaining_percent"@] + (if c.resets_at_label is Some {
        seq!["resets_at_label"@]
    } else {
        Seq::empty()
    }) + seq!["title"@]
}

/// `v` stores the card `c`.
#[verifier::opaque]
pub open spec fn encodes_card(v: JsonValue, c: LimitCardView) -> bool {
    &&& v matches JsonValue::Object(ms)
    &&& keys_of(ms@) == card_keys(c)
    &&& member(ms@, "id"@) matches Some(x) && is_text(x, c.id)
    &&& member(ms@, "title"@) matches Some(x) && is_text(x, c.title)
    &&& member(ms@, "remaining_percent"@) matches Some(x) && is_count(x, c.remaining_percent as u64)
    &&& c.resets_at_label matches Some(t) ==> (member(ms@, "resets_at_label"@) matches Some(x)
        && is_text(x, t))
}

/// `v` stores the credits card `c`.
#[verifier::opaque]
pub open spec fn encodes_credits(v: JsonValue, c: CreditsView) -> bool {
    &&& v matches JsonValue::Object(ms)
    &&& keys_of(ms@) == seq!["balance_label"@, "detail"@]
    &&& member(ms@, "balance_label"@) matches Some(x) && is_text(x, c.balance_label)
    &&& member(ms@, "detail"@) matches Some(x) && is_text(x, c.detail)
}

/// The keys a stored snapshot has, in order: the plan and the usage list
/// only when there is one.
pub open spec fn snapshot_keys(s: SnapshotView) -> Seq<Seq<char>> {
    seq!["auth_status"@, "credits_summary"@, "detail"@] + (if s.plan_type is Some {
        seq!["plan_type"@]
    } else {
        Seq::empty()
    }) + seq!["primary_used_percent"@, "status_label"@] + (if s.usage_limits.len() > 0 {
        seq!["usage_limits"@]
    } else {
        Seq::empty()
    })
}

/// `v` stores the snapshot `s`.
#[verifier::opaque]
pub open spec fn encodes_snapshot(v: JsonValue, s: SnapshotView) -> bool {
    &&& v matches JsonValue::Object(ms)
    &&& keys_of(ms@) == snapshot_keys(s)
    &&& member(ms@, "auth_status"@) matches Some(x) && is_text(x, s.auth_status)
    &&& member(ms@, "credits_summary"@) matches Some(x) && encodes_credits(x, s.credits_summary)
    &&& member(ms@, "detail"@) matches Some(x) && is_text(x, s.detail)
    &&& s.plan_type matches Some(t) ==> (member(ms@, "plan_type"@) matches Some(x) && is_text(x, t))
    &&& member(ms@, "primary_used_percent"@) matches Some(x) && is_count(
        x,
        s.primary_used_percent as u64,
    )
    &&& member(ms@, "status_label"@) matches Some(x) && is_text(x, s.status_label)
    &&& s.usage_limits.len() > 0 ==> (member(ms@, "usage_limits"@) matches Some(
        JsonValue::Array(items),
    ) && items@.len() == s.usage_limits.len() && forall|i: int|
        0 <= i < items@.len() ==> encodes_card(#[trigger] items@[i], s.usage_limits[i]))
}

pub open spec fn state_keys() -> Seq<Seq<char>> {
    seq![
        "account_id"@,
        "auth_status"@,
        "expires_at"@,
        "last_error"@,
        "last_fetched_at"@,
        "last_refresh_at"@,
        "last_snapshot"@,
    ]
}

/// `v` is what the metadata file stores for `s`: everything but the tokens.
pub open spec fn encodes_state(v: JsonValue, s: AuthStateView) -> bool {
    &&& v matches JsonValue::Object(ms)
    &&& keys_of(ms@) == state_keys()
    &&& is_opt_text(ms@[0].value, s.account_id)
    &&& is_text(ms@[1].value, s.auth_status)
    &&& is_count(ms@[2].value, s.expires_at)
    &&& is_opt_text(ms@[3].value, s.last_error)
    &&& is_count(ms@[4].value, s.last_fetched_at)
    &&& is_count(ms@[5].value, s.last_refresh_at)
    &&& match s.last_snapshot {
        Some(x) => encodes_snapshot(ms@[6].value, x),
        None => ms@[6].value is Null,
    }
}

proof fn lemma_card_keys_distinct(c: LimitCardView)
    ensures
        distinct(card_keys(c)),
{
    reveal_strlit("id");
    reveal_strlit("remaining_percent");
    reveal_strlit("resets_at_label");
    reveal_strlit("title");
    let keys = card_keys(c);
    assert("id"@.len() == 2 && "remaining_percent"@.len() == 17 && "resets_at_label"@.len() == 15
        && "title"@.len() == 5);
    assert forall|i: int, j: int| 0 <= i < j < keys.len() implies keys[i] != keys[j] by {
        assert(keys[i].len() != keys[j].len());
    }
}

proof fn lemma_snapshot_keys_distinct(s: SnapshotView)
    ensures
        distinct(snapshot_keys(s)),
{
    reveal_strlit("auth_status");
    reveal_strlit("credits_summary");
    reveal_strlit("detail");
    reveal_strlit("plan_type");
    reveal_strlit("primary_used_percent");
    reveal_strlit("status_label");
    reveal_strlit("usage_limits");
    let keys = snapshot_keys(s);
    assert("auth_status"@.len() == 11 && "credits_summary"@.len() == 15 && "detail"@.len() == 6
        && "plan_type"@.len() == 9 && "primary_used_percent"@.len() == 20 && "status_label"@.len()
        == 12 && "usage_limits"@.len() == 12);
    assert("status_label"@[0] != "usage_limits"@[0]);
    assert forall|i: int, j: int| 0 <= i < j < keys.len() implies keys[i] != keys[j] by {
        if keys[i].len() == keys[j].len() {
            assert(keys[i][0] != keys[j][0]);
        }
    }
}

proof fn lemma_state_keys_distinct()
    ensures
        distinct(state_keys()),
{
    reveal_strlit("account_id");
    reveal_strlit("auth_status");
    reveal_strlit("expires_at");
    reveal_strlit("last_error");
    reveal_strlit("last_fetched_at");
    reveal_strlit("last_refresh_at");
    reveal_strlit("last_snapshot");
    let keys = state_keys();
    assert("account_id"@.len() == 10 && "auth_status"@.len() == 11 && "expires_at"@.len() == 10
        && "last_error"@.len() == 10 && "last_fetched_at"@.len() == 15 && "last_refresh_at"@.len()
        == 15 && "last_snapshot"@.len() == 13);
    assert("account_id"@[0] != "expires_at"@[0]);
    assert("account_id"@[0] != "last_error"@[0]);
    assert("expires_at"@[0] != "last_error"@[0]);
    assert("last_fetched_at"@[5] != "last_refresh_at"@[5]);
    assert forall|i: int, j: int| 0 <= i < j < keys.len() implies keys[i] != keys[j] by {
        if keys[i].len() == keys[j].len() {
            if keys[i].len() == 10 {
                assert(keys[i][0] != keys[j][0]);
            } else {
                assert(keys[i][5] != keys[j][5]);
            }
        }
    }
}

proof fn lemma_keys_push(ms: Seq<JsonMember>, m: JsonMember)
    ensures
        keys_of(ms.push(m)) == keys_of(ms).push(m.key@),
{
    assert(keys_of(ms.push(m)) =~= keys_of(ms).push(m.key@));
}

fn push_member(ms: &mut Vec<JsonMember>, key: &str, value: JsonValue)
    ensures
        final(ms)@ == old(ms)@.push(final(ms)@.last()),
        final(ms)@.last().key@ == key@,
        final(ms)@.last().value == value,
        keys_of(final(ms)@) == keys_of(old(ms)@).push(key@),
{
    let m = json_member(key, value);
    proof {
        lemma_keys_push(ms@, m);
    }
    ms.push(m);
}

/// A card as it is stored.
pub fn card_to_json(card: &UsageLimitCard) -> (r: JsonValue)
    ensures
        encodes_card(r, card@),
{
    reveal(encodes_card);
    let mut ms: Vec<JsonMember> = Vec::new();
    assert(keys_of(ms@) =~= Seq::<Seq<char>>::empty());
    push_member(&mut ms, "id", json_text(card.id.clone()));
    push_member(&mut ms, "remaining_percent", json_u64(card.remaining_percent as u64));
    match &card.resets_at_label {
        Some(t) => push_member(&mut ms, "resets_at_label", json_text(t.clone())),
        None => {},
    }
    push_member(&mut ms, "title", json_text(card.title.clone()));
    proof {
        let c = card@;
        assert(keys_of(ms@) =~= card_keys(c));
        lemma_card_keys_distinct(c);
        lemma_member_of_distinct(ms@, 0);
        lemma_member_of_distinct(ms@, 1);
        lemma_member_of_distinct(ms@, ms@.len() - 1);
        if c.resets_at_label is Some {
            lemma_member_of_distinct(ms@, 2);
        }
    }
    JsonValue::Object(ms)
}

/// A credits card as it is stored.
pub fn credits_to_json(credits: &CreditsSummary) -> (r: JsonValue)
    ensures
        encodes_credits(r, credits@),
{
    reveal(encodes_credits);
    let mut ms: Vec<JsonMember> = Vec::new();
    assert(keys_of(ms@) =~= Seq::<Seq<char>>::empty());
    push_member(&mut ms, "balance_label", json_text(credits.balance_label.clone()));
    push_member(&mut ms, "detail", json_text(credits.detail.clone()));
    proof {
        reveal_strlit("balance_label");
        reveal_strlit("detail");
        assert(keys_of(ms@) =~= seq!["balance_label"@, "detail"@]);
        assert("balance_label"@.len() != "detail"@.len());
        assert(distinct(keys_of(ms@)));
        lemma_member_of_distinct(ms@, 0);
        lemma_member_of_distinct(ms@, 1);
    }
    JsonValue::Object(ms)
}

/// A snapshot as it is stored: the plan only when known, the usage list
/// only when not empty.
#[verifier::rlimit(40)]
pub fn snapshot_to_json(snapshot: &SidecarSnapshot) -> (r: JsonValue)
    ensures
        encodes_snapshot(r, snapshot@),
{
    reveal(encodes_snapshot);
    let ghost s = snapshot@;
    let mut ms: Vec<JsonMember> = Vec::new();
    assert(keys_of(ms@) =~= Seq::<Seq<char>>::empty());
    push_member(&mut ms, "auth_status", json_text(snapshot.auth_status.clone()));
    push_member(&mut ms, "credits_summary", credits_to_json(&snapshot.credits_summary));
    push_member(&mut ms, "detail", json_text(snapshot.detail.clone()));
    let ghost plan_at = ms@.len();
    match &snapshot.plan_type {
        Some(t) => push_member(&mut ms, "plan_type", json_text(t.clone())),
        None => {},
    }
    let ghost used_at = ms@.len();
    push_member(&mut ms, "primary_used_percent", json_u64(snapshot.primary_used_percent as u64));
    push_member(&mut ms, "status_label", json_text(snapshot.status_label.clone()));
    let ghost limits_at = ms@.len();
    if snapshot.usage_limits.len() > 0 {
        let mut items: Vec<JsonValue> = Vec::new();
        for i in 0..snapshot.usage_limits.len()
            invariant
                s == snapshot@,
                items@.len() == i,
                forall|k: int| 0 <= k < i ==> encodes_card(#[trigger] items@[k], s.usage_limits[k]),
        {
            items.push(card_to_json(&snapshot.usage_limits[i]));
        }
        push_member(&mut ms, "usage_limits", JsonValue::Array(items));
    }
    proof {
        assert(keys_of(ms@) =~= snapshot_keys(s));
        lemma_snapshot_keys_distinct(s);
        lemma_member_of_distinct(ms@, 0);
        lemma_member_of_distinct(ms@, 1);
        lemma_member_of_distinct(ms@, 2);
        if s.plan_type is Some {
            lemma_member_of_distinct(ms@, plan_at as int);
        }
        lemma_member_of_distinct(ms@, used_at as int);
        lemma_member_of_distinct(ms@, used_at as int + 1);
        if s.usage_limits.len() > 0 {
            lemma_member_of_distinct(ms@, limits_at as int);
        }
    }
    JsonValue::Object(ms)
}

/// The metadata file's content for `state`: everything but the tokens,
/// which go to secure storage.
pub fn persisted_auth_state_to_json(state: &PersistedAuthState) -> (r: JsonValue)
    ensures
        encodes_state(r, state@),
{
    let mut ms: Vec<JsonMember> = Vec::new();
    assert(keys_of(ms@) =~= Seq::<Seq<char>>::empty());
    push_member(&mut ms, "account_id", json_opt_text(copy_opt(&state.account_id)));
    push_member(&mut ms, "auth_status", json_text(state.auth_status.clone()));
    push_member(&mut ms, "expires_at", json_u64(state.expires_at));
    push_member(&mut ms, "last_error", json_opt_text(copy_opt(&state.last_error)));
    push_member(&mut ms, "last_fetched_at", json_u64(state.last_fetched_at));
    push_member(&mut ms, "last_refresh_at", json_u64(state.last_refresh_at));
    let snapshot = match &state.last_snapshot {
        Some(x) => snapshot_to_json(x),
        None => JsonValue::Null,
    };
    push_member(&mut ms, "last_snapshot", snapshot);
    assert(keys_of(ms@) =~= state_keys());
    JsonValue::Object(ms)
}

/// The percentages of a snapshot are within `0..=100`, as reading caps them.
pub open spec fn percents_in_range(x: SnapshotView) -> bool {
    &&& x.primary_used_percent <= 100
    &&& forall|i: int| 0 <= i < x.usage_limits.len() ==> #[trigger] x.usage_limits[i].remaining_percent
        <= 100
}

/// A key whose length no key of `keys` has is not among them.
proof fn lemma_not_among(keys: Seq<Seq<char>>, key: Seq<char>)
    requires
        forall|i: int| 0 <= i < keys.len() ==> (#[trigger] keys[i]).len() != key.len(),
    ensures
        !keys.contains(key),
{
    if keys.contains(key) {
        let k = choose|k: int| 0 <= k < keys.len() && keys[k] == key;
        assert(keys[k].len() != key.len());
    }
}

proof fn lemma_count_member(ms: Seq<JsonMember>, key: Seq<char>, n: u64)
    requires
        member(ms, key) matches Some(x) && is_count(x, n),
    ensures
        u64_member(ms, key) == Some(n),
        n <= u32::MAX ==> u32_member(ms, key) == Some(n as u32),
{
}

proof fn lemma_card_round_trip(v: JsonValue, c: LimitCardView)
    requires
        encodes_card(v, c),
        c.remaining_percent <= 100,
    ensures
        card_from_json(v) == Some(c),
{
    reveal(encodes_card);
    let ms = v->Object_0@;
    assert(text_member(ms, "id"@) == Some(c.id));
    assert(text_member(ms, "title"@) == Some(c.title));
    lemma_count_member(ms, "remaining_percent"@, c.remaining_percent as u64);
    assert(text_member(ms, "resets_at_label"@) == c.resets_at_label) by {
        if c.resets_at_label is None {
            reveal_strlit("id");
            reveal_strlit("remaining_percent");
            reveal_strlit("resets_at_label");
            reveal_strlit("title");
            let keys = card_keys(c);
            assert(keys =~= seq!["id"@, "remaining_percent"@, "title"@]);
            lemma_not_among(keys, "resets_at_label"@);
            lemma_member_absent(ms, "resets_at_label"@);
        }
    }
    reveal(card_from_json);
}

proof fn lemma_cards_round_trip(items: Seq<JsonValue>, cards: Seq<LimitCardView>)
    requires
        items.len() == cards.len(),
        forall|i: int| 0 <= i < items.len() ==> encodes_card(#[trigger] items[i], cards[i]),
        forall|i: int| 0 <= i < cards.len() ==> #[trigger] cards[i].remaining_percent <= 100,
    ensures
        cards_from_json(items) == cards,
    decreases items.len(),
{
    if items.len() > 0 {
        let n = items.len() - 1;
        assert(encodes_card(items[n], cards[n]));
        assert(cards[n].remaining_percent <= 100);
        lemma_card_round_trip(items[n], cards[n]);
        let a = items.drop_last();
        let b = cards.drop_last();
        assert forall|i: int| 0 <= i < a.len() implies encodes_card(#[trigger] a[i], b[i]) by {
            assert(a[i] == items[i] && b[i] == cards[i]);
        }
        assert forall|i: int| 0 <= i < b.len() implies #[trigger] b[i].remaining_percent <= 100 by {
            assert(b[i] == cards[i]);
        }
        lemma_cards_round_trip(a, b);
        assert(cards == b.push(cards[n]));
    } else {
        assert(cards =~= Seq::<LimitCardView>::empty());
    }
}

proof fn lemma_snapshot_round_trip(v: JsonValue, x: SnapshotView)
    requires
        encodes_snapshot(v, x),
        percents_in_range(x),
    ensures
        snapshot_from_json(v) == Ok::<SnapshotView, Seq<char>>(x),
        v is Object,
{
    reveal(encodes_snapshot);
    reveal(snapshot_from_json);
    reveal(encodes_credits);
    reveal_strlit("auth_status");
    reveal_strlit("credits_summary");
    reveal_strlit("detail");
    reveal_strlit("plan_type");
    reveal_strlit("primary_used_percent");
    reveal_strlit("status_label");
    reveal_strlit("usage_limits");
    let ms = v->Object_0@;
    let keys = snapshot_keys(x);
    if x.plan_type is None {
        assert(!keys.contains("plan_type"@)) by {
            if keys.contains("plan_type"@) {
                let k = choose|k: int| 0 <= k < keys.len() && keys[k] == "plan_type"@;
                assert(keys[k].len() != "plan_type"@.len());
            }
        }
        lemma_member_absent(ms, "plan_type"@);
    }
    if x.usage_limits.len() == 0 {
        assert(!keys.contains("usage_limits"@)) by {
            if keys.contains("usage_limits"@) {
                let k = choose|k: int| 0 <= k < keys.len() && keys[k] == "usage_limits"@;
                if keys[k].len() == "usage_limits"@.len() {
                    assert(keys[k][0] != "usage_limits"@[0]);
                }
            }
        }
        lemma_member_absent(ms, "usage_limits"@);
        assert(x.usage_limits =~= Seq::<LimitCardView>::empty());
    } else {
        let items = member(ms, "usage_limits"@)->0->Array_0@;
        assert forall|i: int| 0 <= i < x.usage_limits.len() implies #[trigger] x.usage_limits[i].remaining_percent
            <= 100 by {}
        lemma_cards_round_trip(items, x.usage_limits);
    }
}

/// Law: what the metadata file stores for a state reads back as that state
/// without its tokens (they live in secure storage), provided its
/// percentages are within `0..=100`, since reading caps them.
pub proof fn lemma_state_round_trip(v: JsonValue, s: AuthStateView)
    requires
        encodes_state(v, s),
        s.last_snapshot matches Some(x) ==> percents_in_range(x),
    ensures
        state_from_json(v) == Ok::<AuthStateView, Seq<char>>(
            AuthStateView { access_token: None, refresh_token: None, ..s },
        ),
{
    reveal_strlit("account_id");
    reveal_strlit("auth_status");
    reveal_strlit("expires_at");
    reveal_strlit("last_error");
    reveal_strlit("last_fetched_at");
    reveal_strlit("last_refresh_at");
    reveal_strlit("last_snapshot");
    reveal_strlit("access_token");
    reveal_strlit("refresh_token");
    let ms = v->Object_0@;
    lemma_state_keys_distinct();
    let keys = keys_of(ms);
    assert(keys == state_keys());
    assert forall|k: int| 0 <= k < 7 implies member(ms, #[trigger] state_keys()[k]) == Some(ms[k].value) by {
        assert(keys[k] == ms[k].key@);
        lemma_member_of_distinct(ms, k);
    }
    assert(member(ms, "account_id"@) == Some(ms[0].value)) by { assert(state_keys()[0] == "account_id"@); }
    assert(member(ms, "auth_status"@) == Some(ms[1].value)) by { assert(state_keys()[1] == "auth_status"@); }
    assert(member(ms, "expires_at"@) == Some(ms[2].value)) by { assert(state_keys()[2] == "expires_at"@); }
    assert(member(ms, "last_error"@) == Some(ms[3].value)) by { assert(state_keys()[3] == "last_error"@); }
    assert(member(ms, "last_fetched_at"@) == Some(ms[4].value)) by { assert(state_keys()[4] == "last_fetched_at"@); }
    assert(member(ms, "last_refresh_at"@) == Some(ms[5].value)) by { assert(state_keys()[5] == "last_refresh_at"@); }
    assert(member(ms, "last_snapshot"@) == Some(ms[6].value)) by { assert(state_keys()[6] == "last_snapshot"@); }
    assert(!keys.contains("access_token"@)) by {
        if keys.contains("access_token"@) {
            let k = choose|k: int| 0 <= k < keys.len() && keys[k] == "access_token"@;
            assert(keys[k].len() != "access_token"@.len());
        }
    }
    assert(!keys.contains("refresh_token"@)) by {
        if keys.contains("refresh_token"@) {
            let k = choose|k: int| 0 <= k < keys.len() && keys[k] == "refresh_token"@;
            if keys[k].len() == "refresh_token"@.len() {
                assert(keys[k][0] != "refresh_token"@[0]);
            }
        }
    }
    lemma_member_absent(ms, "access_token"@);
    lemma_member_absent(ms, "refresh_token"@);
    match s.last_snapshot {
        Some(x) => {
            lemma_snapshot_round_trip(ms[6].value, x);
        },
        None => {},
    }
}

/// A usage window as a card: the remaining share is what the used share
/// leaves; the reset is a duration label when the seconds are known.
pub open spec fn window_card(w: Option<JsonValue>, id: Seq<char>, title: Seq<char>) -> Option<LimitCardView> {
    match w {
        Some(JsonValue::Object(ms)) => {
            let used = u32_or_zero(percent_of(member(ms@, "used_percent"@)));
            Some(
                LimitCardView {
                    id,
                    title,
                    remaining_percent: if used <= 100 {
                        (100 - used) as u32
                    } else {
                        0
                    },
                    resets_at_label: match integer_of(member(ms@, "remaining_seconds"@)) {
                        Some(secs) => Some(duration_label(secs as nat)),
                        None => None,
                    },
                },
            )
        },
        _ => None,
    }
}

pub open spec fn opt_card_seq(c: Option<LimitCardView>) -> Seq<LimitCardView> {
    match c {
        Some(x) => seq![x],
        None => Seq::empty(),
    }
}

/// The cards of a rate limit: its primary and its secondary window, those
/// that are present.
pub open spec fn limit_windows(
    rate_limit: Option<JsonValue>,
    prefix: Seq<char>,
    primary_title: Seq<char>,
    secondary_title: Seq<char>,
) -> Seq<LimitCardView> {
    match rate_limit {
        Some(JsonValue::Object(ms)) => opt_card_seq(
            window_card(member(ms@, "primary_window"@), prefix + "-primary"@, primary_title),
        ) + opt_card_seq(
            window_card(member(ms@, "secondary_window"@), prefix + "-secondary"@, secondary_title),
        ),
        _ => Seq::empty(),
    }
}

/// The name of the additional limit at `index`: its `limit_name`, or
/// `Additional limit <index + 1>`.
pub open spec fn additional_name(entry: JsonValue, index: nat) -> Seq<char> {
    match text_of(crate::json::field(Some(entry), "limit_name"@)) {
        Some(n) => n,
        None => "Additional limit "@ + decimal(index + 1),
    }
}

/// The cards of the additional rate limits, in order.
pub open spec fn additional_cards(entries: Seq<JsonValue>) -> Seq<LimitCardView>
    decreases entries.len(),
{
    if entries.len() == 0 {
        Seq::empty()
    } else {
        let index = (entries.len() - 1) as nat;
        let entry = entries.last();
        let name = additional_name(entry, index);
        additional_cards(entries.drop_last()) + limit_windows(
            crate::json::field(Some(entry), "rate_limit"@),
            "additional-"@ + decimal(index),
            name + " 5 hour usage limit"@,
            name + " Weekly usage limit"@,
        )
    }
}

/// The credits card of a usage response.
pub open spec fn usage_credits(v: Option<JsonValue>) -> CreditsView {
    match v {
        Some(JsonValue::Object(ms)) => if bool_of(member(ms@, "unlimited"@)) == Some(true) {
            CreditsView { balance_label: "Unlimited"@, detail: "Credits are unlimited."@ }
        } else {
            CreditsView {
                balance_label: "$"@ + text_or(amount_of(member(ms@, "balance"@)), "0.00"@),
                detail: default_credits_detail(),
            }
        },
        _ => default_credits_view(),
    }
}

/// Credits read from a usage response: a credits object that says
/// `"unlimited": true` shows the balance `Unlimited` and says the credits are
/// unlimited; any other credits object shows a dollar balance with the
/// default detail; anything else shows `$0.00`.
pub proof fn lemma_credits_unlimited(v: Option<JsonValue>)
    ensures
        v matches Some(JsonValue::Object(ms)) && member(ms@, "unlimited"@) == Some(JsonValue::Bool(true))
            ==> usage_credits(v) == (CreditsView {
            balance_label: "Unlimited"@,
            detail: "Credits are unlimited."@,
        }),
        v matches Some(JsonValue::Object(ms)) && member(ms@, "unlimited"@) != Some(JsonValue::Bool(true))
            ==> usage_credits(v).balance_label.len() >= 1 && usage_credits(v).balance_label[0] == '$'
            && usage_credits(v).detail == default_credits_detail(),
        !(v matches Some(JsonValue::Object(_))) ==> usage_credits(v) == default_credits_view(),
{
    reveal_strlit("$");
}

/// The snapshot a usage response gives.
#[verifier::opaque]
pub open spec fn usage_snapshot(v: JsonValue) -> Result<SnapshotView, Seq<char>> {
    match v {
        JsonValue::Object(ms) => {
            let rate_limit = member(ms@, "rate_limit"@);
            let primary = crate::json::field(rate_limit, "primary_window"@);
            let used = u32_or_zero(percent_of(crate::json::field(primary, "used_percent"@)));
            let used_ok = match primary {
                Some(JsonValue::Object(_)) => used,
                _ => 0,
            };
            let additional = match member(ms@, "additional_rate_limits"@) {
                Some(JsonValue::Array(items)) => additional_cards(items@),
                _ => Seq::empty(),
            };
            let credits = if member(ms@, "credits_summary"@) is Some {
                member(ms@, "credits_summary"@)
            } else {
                member(ms@, "credits"@)
            };
            Ok(
                SnapshotView {
                    auth_status: "authenticated"@,
                    plan_type: text_member(ms@, "plan_type"@),
                    status_label: "ChatGPT connected"@,
                    detail: decimal(used_ok as nat) + "% used in the 5 hour Codex window"@,
                    primary_used_percent: used_ok,
                    usage_limits: limit_windows(
                        rate_limit,
                        "codex"@,
                        "5 hour usage limit"@,
                        "Weekly usage limit"@,
                    ) + limit_windows(
                        member(ms@, "code_review_rate_limit"@),
                        "code-review"@,
                        "Code review"@,
                        "Code review weekly usage limit"@,
                    ) + additional,
                    credits_summary: usage_credits(credits),
                },
            )
        },
        _ => Err("usage response was not a JSON object"@),
    }
}

fn usage_window(w: Option<&JsonValue>, id: String, title: &str) -> (r: Option<UsageLimitCard>)
    ensures
        match r {
            Some(c) => window_card(opt_value(w), id@, title@) == Some(c@),
            None => window_card(opt_value(w), id@, title@) is None,
        },
{
    let ms = match w {
        Some(JsonValue::Object(ms)) => ms,
        _ => return None,
    };
    let used = match read_percent(get_member(ms, "used_percent")) {
        Some(p) => p,
        None => 0,
    };
    let remaining_percent = 100u32.saturating_sub(used);
    let resets_at_label = match read_integer(get_member(ms, "remaining_seconds")) {
        Some(secs) => Some(format_duration_label(secs)),
        None => None,
    };
    Some(UsageLimitCard { id, title: title.to_owned(), remaining_percent, resets_at_label })
}

fn push_opt_card(out: &mut Vec<UsageLimitCard>, c: Option<UsageLimitCard>)
    ensures
        cards_view(final(out)@) == cards_view(old(out)@) + opt_card_seq(
            match c {
                Some(x) => Some(x@),
                None => None,
            },
        ),
{
    match c {
        Some(x) => {
            let ghost before = out@;
            out.push(x);
            assert(cards_view(out@) =~= cards_view(before) + seq![x@]);
        },
        None => {
            assert(cards_view(out@) =~= cards_view(out@) + Seq::<LimitCardView>::empty());
        },
    }
}

/// Appends the cards of a rate limit's windows.
fn push_limit_windows(
    out: &mut Vec<UsageLimitCard>,
    rate_limit: Option<&JsonValue>,
    prefix: &str,
    primary_title: &str,
    secondary_title: &str,
)
    ensures
        cards_view(final(out)@) == cards_view(old(out)@) + limit_windows(
            opt_value(rate_limit),
            prefix@,
            primary_title@,
            secondary_title@,
        ),
{
    let ms = match rate_limit {
        Some(JsonValue::Object(ms)) => ms,
        _ => {
            assert(cards_view(out@) =~= cards_view(out@) + Seq::<LimitCardView>::empty());
            return;
        },
    };
    let ghost start = cards_view(out@);
    let first = usage_window(get_member(ms, "primary_window"), join2(prefix, "-primary"), primary_title);
    push_opt_card(out, first);
    let second = usage_window(
        get_member(ms, "secondary_window"),
        join2(prefix, "-secondary"),
        secondary_title,
    );
    push_opt_card(out, second);
    assert(cards_view(out@) =~= start + limit_windows(
        opt_value(rate_limit),
        prefix@,
        primary_title@,
        secondary_title@,
    ));
}

/// The credits card of a usage response: unlimited, or the balance with two
/// decimals.
pub fn normalize_credits_summary(value: Option<&JsonValue>) -> (r: CreditsSummary)
    ensures
        r@ == usage_credits(opt_value(value)),
{
    let ms = match value {
        Some(JsonValue::Object(ms)) => ms,
        _ => return CreditsSummary::zero_balance(),
    };
    let unlimited = match get_member(ms, "unlimited") {
        Some(JsonValue::Bool(b)) => *b,
        _ => false,
    };
    if unlimited {
        return CreditsSummary {
            balance_label: "Unlimited".to_owned(),
            detail: "Credits are unlimited.".to_owned(),
        };
    }
    let amount = match read_amount(get_member(ms, "balance")) {
        Some(a) => a,
        None => "0.00".to_owned(),
    };
    CreditsSummary {
        balance_label: join2("$", amount.as_str()),
        detail: "Use credits to send messages beyond your plan limit.".to_owned(),
    }
}

/// A credits object that does not say `"unlimited": true` shows its balance
/// in dollars, `$0.00` where it gives none.
pub proof fn lemma_credits_balance(ms: Vec<JsonMember>)
    requires
        member(ms@, "unlimited"@) != Some(JsonValue::Bool(true)),
    ensures
        usage_credits(Some(JsonValue::Object(ms))).balance_label == "$"@ + match amount_of(
            member(ms@, "balance"@),
        ) {
            Some(a) => a,
            None => "0.00"@,
        },
        usage_credits(Some(JsonValue::Object(ms))).detail == default_credits_detail(),
{
}

/// A usage response whose credits object says `"unlimited": true` reads
/// into a snapshot whose credits are unlimited.
pub proof fn lemma_usage_snapshot_unlimited_credits(ms: Vec<JsonMember>, credits: Vec<JsonMember>)
    requires
        member(ms@, "credits_summary"@) is None,
        member(ms@, "credits"@) == Some(JsonValue::Object(credits)),
        member(credits@, "unlimited"@) == Some(JsonValue::Bool(true)),
    ensures
        usage_snapshot(JsonValue::Object(ms)) matches Ok(s) && s.credits_summary == (CreditsView {
            balance_label: "Unlimited"@,
            detail: "Credits are unlimited."@,
        }),
{
    reveal(usage_snapshot);
    lemma_credits_unlimited(Some(JsonValue::Object(credits)));
}

/// Reads a usage response of the ChatGPT backend into a snapshot.
#[verifier::rlimit(40)]
pub fn normalize_usage_snapshot(value: &JsonValue) -> (r: Result<SidecarSnapshot, String>)
    ensures
        match r {
            Ok(s) => usage_snapshot(*value) == Ok::<SnapshotView, Seq<char>>(s@),
            Err(m) => usage_snapshot(*value) == Err::<SnapshotView, Seq<char>>(m@),
        },
{
    reveal(usage_snapshot);
    let ms = match value {
        JsonValue::Object(ms) => ms,
        _ => return Err("usage response was not a JSON object".to_owned()),
    };
    let rate_limit = get_member(ms, "rate_limit");
    let primary_window = crate::json::get_field(rate_limit, "primary_window");
    let primary_used_percent = match primary_window {
        Some(JsonValue::Object(_)) => match read_percent(crate::json::get_field(primary_window, "used_percent")) {
            Some(p) => p,
            None => 0,
        },
        _ => 0,
    };
    let mut usage_limits: Vec<UsageLimitCard> = Vec::new();
    assert(cards_view(usage_limits@) =~= Seq::<LimitCardView>::empty());
    push_limit_windows(&mut usage_limits, rate_limit, "codex", "5 hour usage limit", "Weekly usage limit");
    push_limit_windows(
        &mut usage_limits,
        get_member(ms, "code_review_rate_limit"),
        "code-review",
        "Code review",
        "Code review weekly usage limit",
    );
    let ghost before_additional = cards_view(usage_limits@);
    match get_member(ms, "additional_rate_limits") {
        Some(JsonValue::Array(entries)) => {
            for index in 0..entries.len()
                invariant
                    cards_view(usage_limits@) == before_additional + additional_cards(
                        entries@.take(index as int),
                    ),
            {
                let entry = &entries[index];
                let name = match crate::json::as_text(crate::json::get_field(Some(entry), "limit_name")) {
                    Some(n) => n,
                    None => {
                        let mut n = "Additional limit ".to_owned();
                        push_decimal(&mut n, index as u64 + 1);
                        n
                    },
                };
                let mut prefix = "additional-".to_owned();
                push_decimal(&mut prefix, index as u64);
                let primary_title = join2(name.as_str(), " 5 hour usage limit");
                let secondary_title = join2(name.as_str(), " Weekly usage limit");
                push_limit_windows(
                    &mut usage_limits,
                    crate::json::get_field(Some(entry), "rate_limit"),
                    prefix.as_str(),
                    primary_title.as_str(),
                    secondary_title.as_str(),
                );
                proof {
                    let t = entries@.take(index + 1);
                    assert(t.drop_last() == entries@.take(index as int));
                    assert(t.last() == entries@[index as int]);
                    assert(name@ == additional_name(entries@[index as int], index as nat));
                }
            }
            assert(entries@.take(entries@.len() as int) == entries@);
        },
        _ => {
            assert(cards_view(usage_limits@) =~= before_additional + Seq::<LimitCardView>::empty());
        },
    }
    let credits = match get_member(ms, "credits_summary") {
        Some(c) => Some(c),
        None => get_member(ms, "credits"),
    };
    let mut detail = String::new();
    push_decimal(&mut detail, primary_used_percent as u64);
    detail.append("% used in the 5 hour Codex window");
    Ok(
        SidecarSnapshot {
            auth_status: "authenticated".to_owned(),
            plan_type: optional_string(ms, "plan_type"),
            status_label: "ChatGPT connected".to_owned(),
            detail,
            primary_used_percent,
            usage_limits,
            credits_summary: normalize_credits_summary(credits),
        },
    )
}

/// The ChatGPT account id a token's claims carry.
pub open spec fn claims_account_id(claims: JsonValue) -> Option<Seq<char>> {
    text_of(
        crate::json::field(
            crate::json::field(Some(claims), "https://api.openai.com/auth"@),
            "chatgpt_account_id"@,
        ),
    )
}

/// The ChatGPT account id in a token's claims, if they carry one.
pub fn account_id_from_claims(claims: &JsonValue) -> (r: Option<String>)
    ensures
        opt_view(r) == claims_account_id(*claims),
{
    let auth = crate::json::get_field(Some(claims), "https://api.openai.com/auth");
    crate::json::as_text(crate::json::get_field(auth, "chatgpt_account_id"))
}

/// `a * b`, or the largest `u64` when it does not fit.
pub open spec fn sat_mul(a: u64, b: u64) -> u64 {
    if a * b <= u64::MAX {
        (a * b) as u64
    } else {
        u64::MAX
    }
}

/// `a + b`, or the largest `u64` when it does not fit.
pub open spec fn sat_add(a: u64, b: u64) -> u64 {
    if a + b <= u64::MAX {
        (a + b) as u64
    } else {
        u64::MAX
    }
}

/// Reads a token endpoint's answer at `now` (milliseconds). The refresh
/// token may be left out when one is already known; the lifetime defaults
/// to an hour; the account id comes from the access token's claims, else
/// from the id token's.
pub fn normalize_tokens(
    payload: &JsonValue,
    fallback_refresh_token: Option<&str>,
    access_token_claims: Option<&JsonValue>,
    id_token_claims: Option<&JsonValue>,
    now: u64,
) -> (r: Result<TokenResponse, String>)
    ensures
        match *payload {
            JsonValue::Object(ms) => match text_member(ms@, "access_token"@) {
                None => r matches Err(m) && m@ == "missing `"@ + "access_token"@ + "`"@,
                Some(access) => match (match text_member(ms@, "refresh_token"@) {
                    Some(t) => Some(t),
                    None => match fallback_refresh_token {
                        Some(f) => Some(f@),
                        None => None,
                    },
                }) {
                    None => r matches Err(m) && m@ == "token response is missing a refresh token"@,
                    Some(refresh) => r matches Ok(t) && {
                        &&& t.access_token@ == access
                        &&& t.refresh_token@ == refresh
                        &&& opt_view(t.account_id) == match access_token_claims {
                            Some(c) if claims_account_id(*c) is Some => claims_account_id(*c),
                            _ => match id_token_claims {
                                Some(c) => claims_account_id(*c),
                                None => None,
                            },
                        }
                        &&& t.expires_at == sat_add(
                            now,
                            sat_mul(
                                match u64_member(ms@, "expires_in"@) {
                                    Some(n) => n,
                                    None => 3_600,
                                },
                                1_000,
                            ),
                        )
                        &&& t.last_refresh_at == now
                    },
                },
            },
            _ => r matches Err(m) && m@ == "token response was not an object"@,
        },
{
    let ms = match payload {
        JsonValue::Object(ms) => ms,
        _ => return Err("token response was not an object".to_owned()),
    };
    let access_token = match required_string(ms, "access_token") {
        Ok(t) => t,
        Err(e) => return Err(e),
    };
    let refresh_token = match optional_string(ms, "refresh_token") {
        Some(t) => t,
        None => match fallback_refresh_token {
            Some(f) => f.to_owned(),
            None => return Err("token response is missing a refresh token".to_owned()),
        },
    };
    let expires_in = match optional_u64(ms, "expires_in") {
        Some(n) => n,
        None => 3_600,
    };
    let from_access = match access_token_claims {
        Some(c) => account_id_from_claims(c),
        None => None,
    };
    let account_id = match from_access {
        Some(a) => Some(a),
        None => match id_token_claims {
            Some(c) => account_id_from_claims(c),
            None => None,
        },
    };
    let lifetime_ms: u64 = if expires_in <= u64::MAX / 1_000 {
        expires_in * 1_000
    } else {
        u64::MAX
    };
    Ok(
        TokenResponse {
            access_token,
            refresh_token,
            account_id,
            expires_at: now.saturating_add(lifetime_ms),
            last_refresh_at: now,
        },
    )
}

/// Records a fetched snapshot at `now`: the account is authenticated and
/// the error is cleared.
pub fn store_usage_snapshot(state: &mut PersistedAuthState, snapshot: &SidecarSnapshot, now: u64)
    ensures
        final(state)@ == (AuthStateView {
            auth_status: "authenticated"@,
            last_snapshot: Some(snapshot@),
            last_fetched_at: now,
            last_error: None,
            ..old(state)@
        }),
{
    state.auth_status = "authenticated".to_owned();
    state.last_snapshot = Some(snapshot.duplicate());
    state.last_fetched_at = now;
    state.last_error = None;
}

pub open spec fn status_text(code: u16) -> Seq<char> {
    if code == 200 {
        "OK"@
    } else if code == 400 {
        "Bad Request"@
    } else if code == 404 {
        "Not Found"@
    } else {
        "Error"@
    }
}

/// The HTTP response the OAuth callback answers with.
pub open spec fn http_response_text(code: u16, body: Seq<char>, body_len: nat) -> Seq<char> {
    "HTTP/1.1 "@ + decimal(code as nat) + " "@ + status_text(code)
        + "\r\nContent-Type: text/html; charset=utf-8\r\nContent-Length: "@ + decimal(body_len)
        + "\r\nConnection: close\r\n\r\n"@ + body
}

/// An HTTP/1.1 response with `status_code`, a plain-text `body` and the headers
/// the callback page sends.
pub fn http_response(status_code: u16, body: &str) -> (r: String)
    ensures
        r@ == http_response_text(status_code, body@, (body.spec_bytes().len() as usize) as nat),
{
    let reason: &str = if status_code == 200 {
        "OK"
    } else if status_code == 400 {
        "Bad Request"
    } else if status_code == 404 {
        "Not Found"
    } else {
        "Error"
    };
    let mut r = "HTTP/1.1 ".to_owned();
    push_decimal(&mut r, status_code as u64);
    r.append(" ");
    r.append(reason);
    r.append("\r\nContent-Type: text/html; charset=utf-8\r\nContent-Length: ");
    let n = body.len();
    assert(reason@ == status_text(status_code));
    push_decimal(&mut r, n as u64);
    r.append("\r\nConnection: close\r\n\r\n");
    r.append(body);
    r
}

} // verus!

verus! {

/// The counts the validation fixture surfaces show.
#[derive(Clone, Copy, Debug, Default, PartialEq, Eq, Structural)]
pub struct ValidationFixtureSnapshot {
    pub startup_count: u64,
    pub session_count: u64,
    pub action_count: u64,
    pub serial: u64,
}

/// How often the validation fixture started, opened a surface session and
/// ran its action; each event also moves the serial on. Counts saturate.
#[derive(Clone, Copy, Debug, Default, PartialEq, Eq, Structural)]
pub struct ValidationFixtureState {
    pub startup_count: u64,
    pub session_count: u64,
    pub action_count: u64,
    pub serial: u64,
}

/// `n + 1`, or `n` at `u64::MAX`.
pub open spec fn saturating_inc(n: u64) -> u64 {
    if n < u64::MAX {
        (n + 1) as u64
    } else {
        n
    }
}

impl ValidationFixtureState {
    /// The current counts.
    pub fn snapshot(&self) -> (r: ValidationFixtureSnapshot)
        ensures
            r.startup_count == self.startup_count,
            r.session_count == self.session_count,
            r.action_count == self.action_count,
            r.serial == self.serial,
    {
        ValidationFixtureSnapshot {
            startup_count: self.startup_count,
            session_count: self.session_count,
            action_count: self.action_count,
            serial: self.serial,
        }
    }

    /// Counts a start.
    pub fn record_startup(&mut self) -> (r: ValidationFixtureSnapshot)
        ensures
            final(self).startup_count == saturating_inc(old(self).startup_count),
            final(self).session_count == old(self).session_count,
            final(self).action_count == old(self).action_count,
            final(self).serial == saturating_inc(old(self).serial),
            r == final(self).snapshot_view(),
    {
        self.startup_count = self.startup_count.saturating_add(1);
        self.serial = self.serial.saturating_add(1);
        self.snapshot()
    }

    /// Counts a surface session.
    pub fn begin_surface_session(&mut self) -> (r: ValidationFixtureSnapshot)
        ensures
            final(self).startup_count == old(self).startup_count,
            final(self).session_count == saturating_inc(old(self).session_count),
            final(self).action_count == old(self).action_count,
            final(self).serial == saturating_inc(old(self).serial),
            r == final(self).snapshot_view(),
    {
        self.session_count = self.session_count.saturating_add(1);
        self.serial = self.serial.saturating_add(1);
        self.snapshot()
    }

    /// Counts an action.
    pub fn record_action(&mut self) -> (r: ValidationFixtureSnapshot)
        ensures
            final(self).startup_count == old(self).startup_count,
            final(self).session_count == old(self).session_count,
            final(self).action_count == saturating_inc(old(self).action_count),
            final(self).serial == saturating_inc(old(self).serial),
            r == final(self).snapshot_view(),
    {
        self.action_count = self.action_count.saturating_add(1);
        self.serial = self.serial.saturating_add(1);
        self.snapshot()
    }

    pub open spec fn snapshot_view(self) -> ValidationFixtureSnapshot {
        ValidationFixtureSnapshot {
            startup_count: self.startup_count,
            session_count: self.session_count,
            action_count: self.action_count,
            serial: self.serial,
        }
    }
}

} // verus!
