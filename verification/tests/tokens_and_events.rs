use base64::Engine;
use neozed::codex_usage::{
    account_id_from_claims, normalize_tokens, token_claims_bytes, usage_status_step, UsageFetchError, UsageStatusStep,
};
use neozed::json::{JsonMember, JsonNumber, JsonValue};
use neozed::usage_extension::{
    apply_token_refresh, form_body, plan_view_event, PersistedAuthState, SidecarSnapshot, ViewEventPlan,
};

fn text(s: &str) -> JsonValue {
    JsonValue::String(s.to_string(), None)
}

fn count(n: u64) -> JsonValue {
    JsonValue::Number(JsonNumber { as_u64: Some(n), as_i64: Some(n as i64), reading: None })
}

fn object(mut members: Vec<(&str, JsonValue)>) -> JsonValue {
    members.sort_by(|a, b| a.0.cmp(b.0));
    JsonValue::Object(members.into_iter().map(|(key, value)| JsonMember { key: key.to_string(), value }).collect())
}

fn claims_with_account(account: &str) -> JsonValue {
    object(vec![("https://api.openai.com/auth", object(vec![("chatgpt_account_id", text(account))]))])
}

#[test]
fn token_claims_are_the_decoded_second_segment() {
    let payload = base64::engine::general_purpose::URL_SAFE_NO_PAD.encode(b"{\"sub\":\"x\"}");
    let token = format!("header.{payload}.signature");
    assert_eq!(token_claims_bytes(&token), Some(b"{\"sub\":\"x\"}".to_vec()));
    assert_eq!(token_claims_bytes("no-dots"), None);
    assert_eq!(token_claims_bytes("a.!!!.c"), None);
}

#[test]
fn account_id_comes_from_the_auth_claim() {
    assert_eq!(account_id_from_claims(&claims_with_account("acct_1")), Some("acct_1".to_string()));
    assert_eq!(account_id_from_claims(&object(vec![])), None);
}

#[test]
fn token_responses_default_their_lifetime_and_refresh_token() {
    let payload = object(vec![("access_token", text("access"))]);
    let tokens = normalize_tokens(&payload, Some("old-refresh"), None, Some(&claims_with_account("acct_2")), 1_000)
        .expect("tokens should normalize");
    assert_eq!(tokens.access_token, "access");
    assert_eq!(tokens.refresh_token, "old-refresh");
    assert_eq!(tokens.account_id.as_deref(), Some("acct_2"));
    assert_eq!(tokens.expires_at, 1_000 + 3_600_000);
    assert_eq!(tokens.last_refresh_at, 1_000);

    let missing = normalize_tokens(&payload, None, None, None, 0);
    assert_eq!(missing.err().as_deref(), Some("token response is missing a refresh token"));
    let no_access = normalize_tokens(&object(vec![]), None, None, None, 0);
    assert_eq!(no_access.err().as_deref(), Some("missing `access_token`"));
}

#[test]
fn only_unauthorized_usage_answers_are_retried() {
    assert!(UsageFetchError::from_status(401).should_retry_with_fresh_token());
    assert!(UsageFetchError::from_status(403).should_retry_with_fresh_token());
    assert!(!UsageFetchError::from_status(500).should_retry_with_fresh_token());
}

#[test]
fn form_bodies_percent_encode_names_and_values() {
    assert_eq!(
        form_body(&vec![("grant_type", "refresh_token"), ("refresh_token", "a b/c")]),
        "grant_type=refresh_token&refresh_token=a%20b%2Fc"
    );
}

#[test]
fn token_refresh_keeps_the_refresh_token_unless_a_new_one_comes() {
    let mut state = PersistedAuthState {
        auth_status: "signed-out".to_string(),
        access_token: None,
        refresh_token: Some("r1".to_string()),
        account_id: None,
        expires_at: 0,
        last_refresh_at: 0,
        last_snapshot: None,
        last_fetched_at: 0,
        last_error: None,
    };
    let response = object(vec![("access_token", text("a1")), ("expires_in", count(10))]);
    assert_eq!(apply_token_refresh(&mut state, &response, "r1", 5, 6), Ok(()));
    assert_eq!(state.access_token.as_deref(), Some("a1"));
    assert_eq!(state.refresh_token.as_deref(), Some("r1"));
    assert_eq!(state.expires_at, 10_005);
    assert_eq!(state.last_refresh_at, 6);
    assert_eq!(state.auth_status, "authenticated");
    assert!(apply_token_refresh(&mut state, &JsonValue::Null, "r1", 0, 0).is_err());
}

#[test]
fn clicks_map_to_extension_actions() {
    let signed_out = SidecarSnapshot::signed_out();
    assert_eq!(plan_view_event("panel.refresh", true, &signed_out), ViewEventPlan::RefreshAndRerender);
    assert_eq!(plan_view_event("footer.root", true, &signed_out), ViewEventPlan::SignInAndRerender);
    assert_eq!(plan_view_event("titlebar.badge", true, &signed_out), ViewEventPlan::TogglePanel);
    assert_eq!(plan_view_event("panel.auth", false, &signed_out), ViewEventPlan::Ignore);
    let mut authenticated = signed_out.clone();
    authenticated.auth_status = "authenticated".to_string();
    assert_eq!(plan_view_event("panel.auth", true, &authenticated), ViewEventPlan::SignOutAndRerender);
    assert_eq!(plan_view_event("footer.root", true, &authenticated), ViewEventPlan::TogglePanel);
}

#[test]
fn refused_usage_requests_are_retried_once_with_a_fresh_token() {
    assert_eq!(usage_status_step(0, 200), UsageStatusStep::Proceed);
    assert_eq!(usage_status_step(1, 204), UsageStatusStep::Proceed);
    assert_eq!(usage_status_step(0, 401), UsageStatusStep::RetryWithFreshToken);
    assert_eq!(usage_status_step(0, 403), UsageStatusStep::RetryWithFreshToken);
    assert_eq!(
        usage_status_step(1, 401),
        UsageStatusStep::Fail("usage request failed with retryable HTTP 401".to_string())
    );
    assert_eq!(usage_status_step(0, 500), UsageStatusStep::Fail("usage request failed with HTTP 500".to_string()));
}
