use neozed::codex_usage::{
    compact_titlebar_label, format_duration_label, format_plan_label, last_n_characters, normalize_usage_snapshot,
    oauth_redirect_uri, operation_should_override_auth_status, parse_persisted_auth_state, pkce_challenge,
    persisted_auth_state_to_json, recover_interrupted_sign_in, stable_secret_scope, CodexUsageStore,
    CreditsSummary, PersistedAuthState, RefreshStart, SidecarSnapshot, UsageLimitCard, ViewModel,
    keyring_accounts, keyring_load_step, settle_loaded_auth_state, SecretLoad, KeyringLoadStep, KeyringRead, StoredAuthSecrets, AUTH_KEYRING_ACCOUNT,
};
use neozed::json::{JsonMember, JsonNumber, JsonValue, NumberReading};

fn number(v: f64) -> JsonValue {
    let integral = v.is_finite() && v.fract() == 0.0;
    JsonValue::Number(JsonNumber {
        as_u64: if integral && v >= 0.0 { Some(v as u64) } else { None },
        as_i64: if integral { Some(v as i64) } else { None },
        reading: Some(NumberReading {
            finite: v.is_finite(),
            percent: v.round().clamp(0.0, 100.0) as u32,
            amount_label: format!("{v:.2}"),
            display_label: v.to_string(),
        }),
    })
}

fn text(s: &str) -> JsonValue {
    JsonValue::String(s.to_string(), None)
}

fn object(mut members: Vec<(&str, JsonValue)>) -> JsonValue {
    members.sort_by(|a, b| a.0.cmp(b.0));
    JsonValue::Object(members.into_iter().map(|(key, value)| JsonMember { key: key.to_string(), value }).collect())
}

fn snapshot_with_limit(remaining: u32) -> SidecarSnapshot {
    SidecarSnapshot {
        auth_status: String::from("authenticated"),
        plan_type: Some(String::from("pro")),
        status_label: String::from("ChatGPT connected"),
        detail: String::from("6% used in the 5 hour Codex window"),
        primary_used_percent: 6,
        usage_limits: vec![UsageLimitCard {
            id: String::from("codex-primary"),
            title: String::from("5 hour usage limit"),
            remaining_percent: remaining,
            resets_at_label: Some(String::from("1 hour")),
        }],
        credits_summary: CreditsSummary {
            balance_label: String::from("$12.50"),
            detail: String::from("Credits remain available."),
        },
    }
}

#[test]
fn refresh_button_stays_enabled_when_session_is_missing() {
    let view_model = ViewModel {
        serial: 1,
        busy: false,
        has_session: false,
        account_label: None,
        last_error: None,
        snapshot: SidecarSnapshot::signed_out(),
    };
    assert!(!view_model.refresh_button_disabled());
}

#[test]
fn authenticated_snapshot_without_session_renders_signed_out_view() {
    let state = PersistedAuthState {
        auth_status: String::from("authenticated"),
        access_token: None,
        refresh_token: None,
        account_id: Some(String::from("account_12345678")),
        expires_at: 0,
        last_refresh_at: 0,
        last_snapshot: Some(SidecarSnapshot {
            auth_status: String::from("authenticated"),
            plan_type: Some(String::from("pro")),
            status_label: String::from("ChatGPT connected"),
            detail: String::from("stale"),
            primary_used_percent: 42,
            usage_limits: vec![UsageLimitCard {
                id: String::from("codex-primary"),
                title: String::from("5 hour usage limit"),
                remaining_percent: 58,
                resets_at_label: None,
            }],
            credits_summary: CreditsSummary {
                balance_label: String::from("$12.34"),
                detail: String::from("credits"),
            },
        }),
        last_fetched_at: 0,
        last_error: None,
    };
    let saved = persisted_auth_state_to_json(&state);
    let loaded = parse_persisted_auth_state(&saved).expect("state should load");
    let mut store = CodexUsageStore::new("/tmp/codex-usage/auth.json".to_string());
    store.hydrate(Ok(loaded));
    let view_model = store.current_view_model();

    assert!(!view_model.has_session);
    assert_eq!(view_model.snapshot.auth_status, "signed-out");
    assert_eq!(view_model.auth_button_label(), "Sign In");
    assert_eq!(view_model.account_label.as_deref(), Some("Account 12345678"));
}

#[test]
fn loading_pending_state_recovers_to_signed_out() {
    let state = PersistedAuthState {
        auth_status: String::from("pending"),
        access_token: None,
        refresh_token: None,
        account_id: None,
        expires_at: 0,
        last_refresh_at: 0,
        last_snapshot: Some(SidecarSnapshot::pending()),
        last_fetched_at: 0,
        last_error: None,
    };
    let saved = persisted_auth_state_to_json(&state);
    let parsed = parse_persisted_auth_state(&saved).expect("state should load");
    let settled = settle_loaded_auth_state(parsed, SecretLoad::Missing);
    let (loaded, changed) = (settled.state, settled.save_loaded);

    assert!(changed);
    assert_eq!(loaded.auth_status, "signed-out");
    assert!(loaded.last_snapshot.is_none());
    assert!(loaded.last_error.as_deref().map(|message| message.contains("did not complete")).unwrap_or(false));
}

#[test]
fn parse_persisted_auth_state_reads_cached_snapshot() {
    let value = object(vec![
        ("auth_status", text("pending")),
        ("refresh_token", text("refresh-token")),
        ("account_id", text("acct_123")),
        ("expires_at", number(55.0)),
        ("last_refresh_at", number(44.0)),
        ("last_fetched_at", number(66.0)),
        ("last_error", JsonValue::Null),
        (
            "last_snapshot",
            object(vec![
                ("auth_status", text("authenticated")),
                ("plan_type", text("pro")),
                ("status_label", text("ChatGPT connected")),
                ("detail", text("6% used in the 5 hour Codex window")),
                ("primary_used_percent", number(6.0)),
                ("usage_limits", JsonValue::Array(vec![])),
                (
                    "credits_summary",
                    object(vec![
                        ("balance_label", text("0")),
                        ("detail", text("Use credits to send messages beyond your plan limit.")),
                    ]),
                ),
            ]),
        ),
    ]);
    let state = parse_persisted_auth_state(&value).expect("state should parse");

    assert_eq!(state.auth_status, "pending");
    assert_eq!(state.account_id.as_deref(), Some("acct_123"));
    assert_eq!(state.last_fetched_at, 66);
    assert_eq!(state.last_snapshot.as_ref().and_then(|snapshot| snapshot.plan_type.as_deref()), Some("pro"));
}

#[test]
fn normalize_usage_snapshot_extracts_primary_limits_and_credits() {
    let window = |used: f64, seconds: f64, remaining: f64| {
        object(vec![
            ("used_percent", number(used)),
            ("limit_window_seconds", number(seconds)),
            ("remaining_seconds", number(remaining)),
        ])
    };
    let value = object(vec![
        ("plan_type", text("pro")),
        (
            "rate_limit",
            object(vec![
                ("primary_window", window(6.0, 18000.0, 3600.0)),
                ("secondary_window", window(71.0, 604800.0, 86400.0)),
            ]),
        ),
        ("code_review_rate_limit", object(vec![("primary_window", window(0.0, 18000.0, 18000.0))])),
        ("credits_summary", object(vec![("balance", number(12.5))])),
    ]);
    let snapshot = normalize_usage_snapshot(&value).expect("usage snapshot should normalize");

    assert_eq!(snapshot.auth_status, "authenticated");
    assert_eq!(snapshot.plan_type.as_deref(), Some("pro"));
    assert_eq!(snapshot.primary_used_percent, 6);
    assert_eq!(snapshot.usage_limits.len(), 3);
    assert_eq!(snapshot.usage_limits[0].remaining_percent, 94);
    assert_eq!(snapshot.usage_limits[1].remaining_percent, 29);
    assert_eq!(snapshot.credits_summary.balance_label, "$12.50");
}

#[test]
fn compact_titlebar_label_tracks_auth_state() {
    let signed_out = SidecarSnapshot::signed_out();
    assert_eq!(compact_titlebar_label(&signed_out), "Sign In");
    assert_eq!(compact_titlebar_label(&snapshot_with_limit(94)), "94%");
}

#[test]
fn saved_state_parses_back_to_itself() {
    let state = PersistedAuthState {
        auth_status: String::from("authenticated"),
        access_token: None,
        refresh_token: None,
        account_id: Some(String::from("acct")),
        expires_at: 10,
        last_refresh_at: 9,
        last_snapshot: Some(snapshot_with_limit(58)),
        last_fetched_at: 8,
        last_error: Some(String::from("boom")),
    };
    let parsed = parse_persisted_auth_state(&persisted_auth_state_to_json(&state)).expect("state should parse");
    assert_eq!(parsed, state);
}

#[test]
fn store_serial_moves_on_each_change() {
    let mut store = CodexUsageStore::new("/tmp/auth.json".to_string());
    assert_eq!(store.serial, 1);
    store.hydrate(Err("missing".to_string()));
    assert_eq!(store.serial, 2);
    assert_eq!(store.persisted.last_error.as_deref(), Some("Failed to load auth state: missing"));
    let before = store.serial;
    store.hydrate(Ok(PersistedAuthState::signed_out()));
    assert_eq!(store.serial, before);
    assert!(matches!(store.begin_refresh(), RefreshStart::NeedsLogin));
}

#[test]
fn labels_and_small_formats() {
    assert_eq!(format_plan_label("plus"), "Plan: Codex Plus");
    assert_eq!(format_plan_label("codex_team-pro"), "Plan: Codex Team Pro");
    assert_eq!(last_n_characters("account_12345678", 8), "12345678");
    assert_eq!(last_n_characters("abc", 8), "abc");
    assert_eq!(oauth_redirect_uri(1455), "http://localhost:1455/auth/callback");
    assert!(operation_should_override_auth_status("signed-out", "error"));
    assert_eq!(format_duration_label(3600), "resets in 1h");
    assert_eq!(format_duration_label(59), "resets in 59s");
    assert_eq!(format_duration_label(172_800), "resets in 2d");
}

#[test]
fn pkce_challenge_is_the_base64url_sha256_of_the_verifier() {
    assert_eq!(
        pkce_challenge("dBjftJeZ4CVP-mB92K27uhbUJU1p1r_wW1gFWFOEjXk"),
        "E9Melhoa2OwvFrEMTJguCHaoeK1t8URWbuGJSstw-cM"
    );
    assert_eq!(stable_secret_scope("/tmp/auth.json"), "78b21d88ae66175a0f78481c9aa4c7e34d10511ab0a657ecb805e71c25e5a827");
}

#[test]
fn keyring_accounts_try_the_current_account_then_the_legacy_one() {
    let accounts = keyring_accounts("/tmp/auth.json");
    assert_eq!(accounts.len(), 2);
    assert_eq!(accounts[0], AUTH_KEYRING_ACCOUNT);
    assert_eq!(accounts[1], format!("codex-usage-plugin:{}", stable_secret_scope("/tmp/auth.json")));
}

#[test]
fn keyring_load_skips_empty_accounts_and_migrates_legacy_tokens() {
    let tokens = StoredAuthSecrets { access_token: Some("a".into()), refresh_token: Some("r".into()) };
    let empty = StoredAuthSecrets { access_token: None, refresh_token: None };
    assert_eq!(keyring_load_step(AUTH_KEYRING_ACCOUNT, KeyringRead::Missing), KeyringLoadStep::Next);
    assert_eq!(keyring_load_step(AUTH_KEYRING_ACCOUNT, KeyringRead::Found(empty)), KeyringLoadStep::Next);
    assert_eq!(
        keyring_load_step(AUTH_KEYRING_ACCOUNT, KeyringRead::Found(tokens.clone())),
        KeyringLoadStep::Loaded { secrets: tokens.clone(), migrate: false }
    );
    assert_eq!(
        keyring_load_step("codex-usage-plugin:abc", KeyringRead::Found(tokens.clone())),
        KeyringLoadStep::Loaded { secrets: tokens, migrate: true }
    );
    assert_eq!(
        keyring_load_step(AUTH_KEYRING_ACCOUNT, KeyringRead::Failed("locked".into())),
        KeyringLoadStep::Fail("locked".into())
    );
}

fn pending_state(refresh_token: Option<&str>) -> PersistedAuthState {
    PersistedAuthState {
        auth_status: String::from("pending"),
        access_token: None,
        refresh_token: refresh_token.map(String::from),
        account_id: None,
        expires_at: 0,
        last_refresh_at: 0,
        last_snapshot: Some(SidecarSnapshot::pending()),
        last_fetched_at: 0,
        last_error: None,
    }
}

#[test]
fn loading_a_pending_state_without_tokens_signs_out_and_saves() {
    let loaded = settle_loaded_auth_state(pending_state(None), SecretLoad::Missing);
    assert!(loaded.save_loaded);
    assert!(loaded.migrate_secrets.is_none());
    assert!(loaded.metadata_to_save.is_none());
    assert_eq!(loaded.state.auth_status, "signed-out");
    assert!(loaded.state.last_snapshot.is_none());
    assert_eq!(
        loaded.state.last_error.as_deref(),
        Some("Previous ChatGPT sign-in did not complete. Please sign in again.")
    );
}

#[test]
fn loading_a_pending_state_with_stored_session_authenticates() {
    let secrets = StoredAuthSecrets {
        access_token: Some(String::from("access")),
        refresh_token: Some(String::from("refresh")),
    };
    let loaded = settle_loaded_auth_state(pending_state(None), SecretLoad::Loaded(secrets));
    assert!(loaded.save_loaded);
    assert_eq!(loaded.state.auth_status, "authenticated");
    assert_eq!(loaded.state.refresh_token.as_deref(), Some("refresh"));
}

#[test]
fn loading_moves_file_tokens_and_recovers() {
    let loaded = settle_loaded_auth_state(pending_state(Some("legacy")), SecretLoad::Missing);
    let moved = loaded.migrate_secrets.expect("tokens should move to secure storage");
    assert_eq!(moved.refresh_token.as_deref(), Some("legacy"));
    let metadata = loaded.metadata_to_save.expect("metadata should be rewritten");
    assert_eq!(metadata.auth_status, "pending");
    assert_eq!(loaded.state.auth_status, "authenticated");
    assert!(loaded.save_loaded);
}

#[test]
fn loading_a_settled_state_keeps_it() {
    let mut state = pending_state(None);
    state.auth_status = String::from("authenticated");
    state.last_snapshot = None;
    let loaded = settle_loaded_auth_state(state.clone(), SecretLoad::Missing);
    assert!(!loaded.save_loaded);
    assert_eq!(loaded.state, state);
}

#[test]
fn loading_with_broken_storage_signs_out_without_saving() {
    let loaded = settle_loaded_auth_state(pending_state(Some("r")), SecretLoad::Failed(String::from("locked")));
    assert!(!loaded.save_loaded);
    assert_eq!(loaded.state.auth_status, "signed-out");
    assert!(loaded.state.refresh_token.is_none());
}

#[test]
fn recovering_keeps_a_state_that_is_not_pending() {
    let mut state = pending_state(None);
    state.auth_status = String::from("signed-out");
    let (kept, changed) = recover_interrupted_sign_in(state.clone());
    assert!(!changed);
    assert_eq!(kept, state);
}
