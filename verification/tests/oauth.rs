use neozed::oauth::{
    authorize_query_pairs, build_authorize_url, handle_oauth_connection, oauth_callback_outcome, oauth_client_id,
    request_target_of, OAuthCallbackError,
};

#[test]
fn oauth_callback_returns_authorization_code_for_bound_port() {
    let request = b"GET /auth/callback?state=expected-state&code=auth-code-123 HTTP/1.1\r\nHost: localhost\r\nConnection: close\r\n\r\n";
    let outcome = handle_oauth_connection(request, "expected-state");
    assert_eq!(outcome.result, Ok("auth-code-123".to_string()));
    let response = outcome.response.expect("a response is written");
    assert!(response.starts_with("HTTP/1.1 200 OK\r\n"));
    assert!(response.ends_with("Authentication successful. Return to Zed.</p></body></html>"));
}

#[test]
fn oauth_callback_rejects_state_mismatch() {
    let request = b"GET /auth/callback?state=wrong-state&code=auth-code-123 HTTP/1.1\r\nHost: localhost\r\nConnection: close\r\n\r\n";
    let outcome = handle_oauth_connection(request, "expected-state");
    assert_eq!(outcome.result, Err(OAuthCallbackError::StateMismatch));
    assert!(outcome.result.as_ref().unwrap_err().is_transient());
    let response = outcome.response.expect("a response is written");
    assert!(response.starts_with("HTTP/1.1 400 Bad Request\r\n"));
    assert!(response.contains("Content-Length: 14\r\n"));
    assert!(response.ends_with("State mismatch"));
}

#[test]
fn oauth_callback_reports_provider_errors_and_other_paths() {
    let outcome = handle_oauth_connection(
        b"GET /auth/callback?error=access_denied&error_description=User+said+no HTTP/1.1\r\n\r\n",
        "s",
    );
    let error = outcome.result.unwrap_err();
    assert_eq!(error.message(), "OAuth callback returned `access_denied`: User said no");
    assert!(!error.is_transient());

    let outcome = handle_oauth_connection(b"GET /favicon.ico HTTP/1.1\r\n\r\n", "s");
    assert_eq!(outcome.result, Err(OAuthCallbackError::UnexpectedPath("/favicon.ico".to_string())));
    assert!(outcome.response.unwrap().starts_with("HTTP/1.1 404 Not Found\r\n"));

    let outcome = handle_oauth_connection(b"GET /auth/callback?state=s HTTP/1.1\r\n\r\n", "s");
    assert_eq!(outcome.result, Err(OAuthCallbackError::MissingCode));
    assert!(outcome.response.is_none());

    let outcome = handle_oauth_connection(b"", "s");
    assert_eq!(outcome.result, Err(OAuthCallbackError::MissingRequestTarget));
}

#[test]
fn request_target_is_the_second_word_of_the_first_line() {
    assert_eq!(request_target_of("GET  /a?b=c   HTTP/1.1\r\nX: y"), Some("/a?b=c".to_string()));
    assert_eq!(request_target_of("GET\r\n/a HTTP/1.1"), None);
    assert_eq!(request_target_of(""), None);
}

#[test]
fn the_first_state_and_code_pairs_count() {
    let pairs = vec![
        ("state".to_string(), "good".to_string()),
        ("state".to_string(), "bad".to_string()),
        ("code".to_string(), "first".to_string()),
        ("code".to_string(), "second".to_string()),
    ];
    let outcome = oauth_callback_outcome("/auth/callback", &pairs, "good");
    assert_eq!(outcome.result, Ok("first".to_string()));
}

#[test]
fn invalid_utf8_in_the_request_reads_as_replacement_characters() {
    let outcome = handle_oauth_connection(b"GET /auth/callback?state=s&code=c\xff HTTP/1.1\r\n\r\n", "s");
    assert_eq!(outcome.result, Ok("c\u{fffd}".to_string()));
}

#[test]
fn authorize_url_carries_the_pkce_code_flow_query() {
    let url = build_authorize_url("http://localhost:1455/auth/callback", "abc", "xyz").expect("the sign-in page parses");
    assert_eq!(
        url,
        "https://auth.openai.com/oauth/authorize?response_type=code&client_id=app_EMoamEEZ73f0CkXaXp7hrann\
&redirect_uri=http%3A%2F%2Flocalhost%3A1455%2Fauth%2Fcallback&scope=openid+email+profile+offline_access\
&prompt=login&code_challenge=abc&code_challenge_method=S256&state=xyz&id_token_add_organizations=true\
&codex_cli_simplified_flow=true"
    );
}

#[test]
fn authorize_query_pairs_list_the_flow_parameters_in_order() {
    let pairs = authorize_query_pairs("r", "c", "s");
    let keys: Vec<&str> = pairs.iter().map(|(k, _)| k.as_str()).collect();
    assert_eq!(
        keys,
        vec![
            "response_type",
            "client_id",
            "redirect_uri",
            "scope",
            "prompt",
            "code_challenge",
            "code_challenge_method",
            "state",
            "id_token_add_organizations",
            "codex_cli_simplified_flow",
        ]
    );
    assert_eq!(pairs[2].1, "r");
    assert_eq!(pairs[5].1, "c");
    assert_eq!(pairs[7].1, "s");
    assert_eq!(oauth_client_id(), "app_EMoamEEZ73f0CkXaXp7hrann");
}
