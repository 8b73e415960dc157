use neozed::codex_usage::{CreditsSummary, UsageLimitCard};
use neozed::json::{JsonMember, JsonNumber, JsonValue, NumberReading};
use neozed::remote_ui::{ProgressBarProps, RemoteViewNodeKind};
use neozed::usage_extension::{
    parse_persisted_auth_state, parse_sidecar_snapshot, persisted_auth_state_to_json, render_footer_view,
    render_panel_view, render_titlebar_view, should_force_usage_refresh, sidecar_snapshot_to_json,
    DemoViewState, PersistedAuthState, RenderReason, SidecarSnapshot, RemoteUiExampleExtension, CommandPlan,
    ViewEventPlan, plan_command, is_known_contribution,
};

fn number(v: f64) -> JsonValue {
    let integral = v.is_finite() && v.fract() == 0.0;
    JsonValue::Number(JsonNumber {
        as_u64: if integral && v >= 0.0 { Some(v as u64) } else { None },
        as_i64: if integral { Some(v as i64) } else { None },
        reading: Some(NumberReading {
            finite: v.is_finite(),
            percent: v.round().clamp(0.0, 100.0) as u32,
            amount_label: format!("{v:.2}"),
            display_label: v.to_string(),
        }),
    })
}

fn text(s: &str) -> JsonValue {
    JsonValue::String(s.to_string(), None)
}

fn object(mut members: Vec<(&str, JsonValue)>) -> JsonValue {
    members.sort_by(|a, b| a.0.cmp(b.0));
    JsonValue::Object(members.into_iter().map(|(key, value)| JsonMember { key: key.to_string(), value }).collect())
}

fn card(id: &str, title: &str, remaining: u32, resets: Option<&str>) -> UsageLimitCard {
    UsageLimitCard {
        id: id.to_string(),
        title: title.to_string(),
        remaining_percent: remaining,
        resets_at_label: resets.map(|r| r.to_string()),
    }
}

fn demo_view_state() -> DemoViewState {
    DemoViewState {
        contribution_id: "demo.panel".to_string(),
        revision: 1,
        snapshot: SidecarSnapshot {
            auth_status: "authenticated".to_string(),
            plan_type: Some("pro".to_string()),
            primary_used_percent: 6,
            usage_limits: vec![
                card("codex-primary", "5 hour usage limit", 94, Some("1:12 PM")),
                card("codex-secondary", "Weekly usage limit", 29, Some("5:25 PM")),
                card("spark-primary", "GPT-5.3-Codex-Spark 5 hour usage limit", 100, None),
                card("spark-secondary", "GPT-5.3-Codex-Spark Weekly usage limit", 100, None),
                card("code-review-primary", "Code review", 100, None),
            ],
            credits_summary: CreditsSummary {
                balance_label: "0".to_string(),
                detail: "Use credits to send messages beyond your plan limit.".to_string(),
            },
        },
        sidecar_error: None,
    }
}

#[test]
fn parse_sidecar_snapshot_reads_expected_usage_fields() {
    let limit = |id: &str, title: &str, used: f64, remaining: f64, resets: &str| {
        object(vec![
            ("id", text(id)),
            ("title", text(title)),
            ("used_percent", number(used)),
            ("remaining_percent", number(remaining)),
            ("resets_at_label", text(resets)),
        ])
    };
    let value = object(vec![
        ("auth_status", text("authenticated")),
        ("plan_type", text("pro")),
        ("primary_used_percent", number(106.0)),
        (
            "usage_limits",
            JsonValue::Array(vec![
                limit("codex-primary", "5 hour usage limit", 6.0, 94.0, "1:12 PM"),
                limit("codex-secondary", "Weekly usage limit", 71.0, 29.0, "5:25 PM"),
            ]),
        ),
        (
            "credits_summary",
            object(vec![
                ("balance_label", text("0")),
                ("detail", text("Use credits to send messages beyond your plan limit.")),
            ]),
        ),
    ]);
    let snapshot = parse_sidecar_snapshot(&value).expect("snapshot should parse");

    assert_eq!(snapshot.auth_status, "authenticated");
    assert_eq!(snapshot.plan_type.as_deref(), Some("pro"));
    assert_eq!(snapshot.primary_used_percent, 100);
    assert_eq!(snapshot.usage_limits.len(), 2);
    assert_eq!(snapshot.usage_limits[0].remaining_percent, 94);
    assert_eq!(snapshot.credits_summary.balance_label, "0");
}

#[test]
fn titlebar_view_stays_compact() {
    let view = demo_view_state();
    let tree = render_titlebar_view(&view);
    let node_ids = tree.nodes.iter().map(|node| node.node_id.as_str()).collect::<Vec<_>>();
    assert_eq!(tree.root_id, "titlebar.root");
    assert_eq!(node_ids, vec!["titlebar.root", "titlebar.icon", "titlebar.badge"]);
}

#[test]
fn panel_view_renders_usage_cards_and_compact_credits_card() {
    let mut view = demo_view_state();
    view.sidecar_error = Some("usage request failed with HTTP 401".to_string());
    let tree = render_panel_view(&view);
    let node_ids = tree.nodes.iter().map(|node| node.node_id.as_str()).collect::<Vec<_>>();

    assert!(node_ids.contains(&"panel.limit.codex-primary"));
    assert!(node_ids.contains(&"panel.limit.codex-secondary"));
    assert!(node_ids.contains(&"panel.limit.spark-primary"));
    assert!(node_ids.contains(&"panel.limit.spark-secondary"));
    assert!(node_ids.contains(&"panel.limit.code-review-primary"));
    assert!(node_ids.contains(&"panel.plan"));
    assert!(node_ids.contains(&"panel.credits"));
    assert!(node_ids.contains(&"panel.credits.balance"));
    assert!(node_ids.contains(&"panel.error"));
}

#[test]
fn footer_view_shows_primary_usage_progress() {
    let view = demo_view_state();
    let tree = render_footer_view(&view);
    let node_ids = tree.nodes.iter().map(|node| node.node_id.as_str()).collect::<Vec<_>>();

    assert_eq!(tree.root_id, "footer.root");
    assert_eq!(node_ids, vec!["footer.root", "footer.icon", "footer.summary", "footer.progress"]);

    let progress = tree.nodes.iter().find(|node| node.node_id == "footer.progress").expect("progress node");
    let summary = tree.nodes.iter().find(|node| node.node_id == "footer.summary").expect("summary node");

    assert!(matches!(progress.kind, RemoteViewNodeKind::ProgressBar(ProgressBarProps { value: 94, max_value: 100 })));
    assert!(matches!(summary.kind, RemoteViewNodeKind::Text(ref label) if label == "94% left"));
}

#[test]
fn explicit_refresh_forces_a_usage_reload() {
    assert!(!should_force_usage_refresh(RenderReason::Initial));
    assert!(!should_force_usage_refresh(RenderReason::Event));
    assert!(should_force_usage_refresh(RenderReason::ExplicitRefresh));
}

#[test]
fn persisted_auth_state_reads_pending_status_and_cached_snapshot() {
    let value = object(vec![
        ("auth_status", text("pending")),
        (
            "last_snapshot",
            object(vec![
                ("auth_status", text("authenticated")),
                ("plan_type", text("pro")),
                ("primary_used_percent", number(40.0)),
                ("usage_limits", JsonValue::Array(vec![])),
                (
                    "credits_summary",
                    object(vec![("balance_label", text("12")), ("detail", text("Credits remain available."))]),
                ),
            ]),
        ),
        ("last_error", JsonValue::Null),
        ("last_fetched_at", number(55.0)),
    ]);
    let state = parse_persisted_auth_state(&value).expect("state should parse");

    assert_eq!(state.auth_status, "pending");
    assert_eq!(state.last_fetched_at, 55);
    assert_eq!(state.last_snapshot.as_ref().and_then(|snapshot| snapshot.plan_type.as_deref()), Some("pro"));
}

#[test]
fn written_snapshot_and_state_read_back_unchanged() {
    let snapshot = demo_view_state().snapshot;
    let parsed = parse_sidecar_snapshot(&sidecar_snapshot_to_json(&snapshot)).expect("snapshot should parse");
    assert_eq!(parsed, snapshot);

    let state = PersistedAuthState {
        auth_status: "authenticated".to_string(),
        access_token: Some("token".to_string()),
        refresh_token: Some("refresh".to_string()),
        account_id: None,
        expires_at: 100,
        last_refresh_at: 50,
        last_snapshot: Some(snapshot),
        last_fetched_at: 60,
        last_error: None,
    };
    let parsed = parse_persisted_auth_state(&persisted_auth_state_to_json(&state)).expect("state should parse");
    assert_eq!(parsed, state);
}

#[test]
fn state_without_snapshot_is_refused_after_writing() {
    let state = PersistedAuthState {
        auth_status: "signed-out".to_string(),
        access_token: None,
        refresh_token: None,
        account_id: None,
        expires_at: 0,
        last_refresh_at: 0,
        last_snapshot: None,
        last_fetched_at: 0,
        last_error: None,
    };
    let parsed = parse_persisted_auth_state(&persisted_auth_state_to_json(&state));
    assert_eq!(parsed, Err("sidecar snapshot must be a JSON object".to_string()));
}

#[test]
fn example_extension_opens_renders_and_closes_views() {
    let mut extension = RemoteUiExampleExtension::new();
    assert!(is_known_contribution("demo.footer"));
    assert!(!is_known_contribution("demo.other"));
    let titlebar = extension.open_view("demo.titlebar".to_string(), SidecarSnapshot::signed_out(), None).unwrap();
    let panel = extension.open_view("demo.panel".to_string(), SidecarSnapshot::signed_out(), None).unwrap();
    assert_eq!((titlebar, panel), (1, 2));
    assert_eq!(extension.next_instance_id, 3);
    assert_eq!(
        extension.open_view("demo.other".to_string(), SidecarSnapshot::signed_out(), None),
        Err("unknown contribution `demo.other`".to_string())
    );
    assert_eq!(extension.next_instance_id, 3);

    let tree = extension.render_view(titlebar, SidecarSnapshot::signed_out(), None).unwrap();
    assert_eq!(tree.revision, 2);
    assert_eq!(tree.root_id, "titlebar.root");
    assert_eq!(tree.nodes.len(), 3);
    let tree = extension.render_view(panel, SidecarSnapshot::signed_out(), Some("offline".to_string())).unwrap();
    assert_eq!(tree.root_id, "panel.root");
    assert_eq!(extension.views[1].1.sidecar_error.as_deref(), Some("offline"));
    assert_eq!(
        extension.render_view(9, SidecarSnapshot::signed_out(), None).unwrap_err(),
        "unknown view instance `9`"
    );

    assert_eq!(extension.view_event_plan(titlebar, "titlebar.icon", true), Ok(ViewEventPlan::TogglePanel));
    assert_eq!(extension.view_event_plan(titlebar, "titlebar.auth", true), Ok(ViewEventPlan::SignInAndRerender));
    assert_eq!(extension.view_event_plan(42, "titlebar.icon", true), Err("unknown view instance `42`".to_string()));

    extension.close_view(titlebar);
    assert_eq!(extension.views.len(), 1);
    assert!(!extension.has_view(titlebar));
    assert!(extension.has_view(panel));
    extension.close_view(titlebar);
    assert_eq!(extension.views.len(), 1);
}

#[test]
fn example_extension_plans_its_commands() {
    assert_eq!(plan_command("demo-toggle-panel"), CommandPlan::TogglePanel);
    assert_eq!(plan_command("demo-refresh"), CommandPlan::RefreshUsage { toast: "Codex usage refreshed".to_string() });
    assert_eq!(
        plan_command("demo-begin-login"),
        CommandPlan::BeginLogin { toast: "Opened ChatGPT sign-in in your browser".to_string() }
    );
    assert_eq!(
        plan_command("demo-logout"),
        CommandPlan::Logout { toast: "Cleared the saved ChatGPT session".to_string() }
    );
    assert_eq!(plan_command("demo-open-url"), CommandPlan::OpenUrl("https://chatgpt.com".to_string()));
    assert_eq!(plan_command("demo-x"), CommandPlan::Unknown("unknown command `demo-x`".to_string()));
}
