//! The sign-in callback: what the local callback server answers to a
//! request and what it learns from it.

use vstd::prelude::*;
use vstd::string::StringSliceAdditionalSpecFns;
use crate::codex_usage::http_response;
use crate::text::{chars_of, is_white_space, is_white_space_char, join2, join3, same_text, string_of};

verus! {

/// The path the sign-in redirects to.
pub open spec fn redirect_path() -> Seq<char> {
    "/auth/callback"@
}

/// The first line of `s` as `str::lines` gives it: up to the first line
/// feed, without a carriage return just before it; none for an empty text.
pub open spec fn first_line(s: Seq<char>) -> Option<Seq<char>> {
    if s.len() == 0 {
        None
    } else if exists|i: int| 0 <= i < s.len() && s[i] == '\n' {
        let i = choose|i: int| 0 <= i < s.len() && s[i] == '\n' && forall|j: int| 0 <= j < i ==> s[j] != '\n';
        if i > 0 && s[i - 1] == '\r' {
            Some(s.take(i - 1))
        } else {
            Some(s.take(i))
        }
    } else {
        Some(s)
    }
}

/// The words of `s` (maximal runs of non-white-space characters) found so
/// far, and the word still open.
pub open spec fn words_state(s: Seq<char>) -> (Seq<Seq<char>>, Seq<char>)
    decreases s.len(),
{
    if s.len() == 0 {
        (Seq::empty(), Seq::empty())
    } else {
        let (done, open) = words_state(s.drop_last());
        if is_white_space(s.last()) {
            if open.len() > 0 {
                (done.push(open), Seq::empty())
            } else {
                (done, Seq::empty())
            }
        } else {
            (done, open.push(s.last()))
        }
    }
}

/// The words of `s`, as `str::split_whitespace` gives them.
pub open spec fn words(s: Seq<char>) -> Seq<Seq<char>> {
    let (done, open) = words_state(s);
    if open.len() > 0 {
        done.push(open)
    } else {
        done
    }
}

/// The request target of an HTTP request: the second word of its first line.
pub open spec fn request_target(request: Seq<char>) -> Option<Seq<char>> {
    match first_line(request) {
        Some(line) => if words(line).len() >= 2 {
            Some(words(line)[1])
        } else {
            None
        },
        None => None,
    }
}

/// What `String::from_utf8_lossy` makes of `bytes`.
pub uninterp spec fn utf8_lossy(bytes: Seq<u8>) -> Seq<char>;

/// `String::from_utf8_lossy`: the bytes as text, with each invalid sequence
/// replaced by U+FFFD.
#[verifier::external_body]
fn lossy_text(bytes: &[u8]) -> (r: String)
    ensures
        r@ == utf8_lossy(bytes@),
{
    String::from_utf8_lossy(bytes).into_owned()
}

/// The path and the decoded query pairs, in order, that `url::Url::parse`
/// finds in `url`, or `None` when it refuses the text.
pub uninterp spec fn callback_url_parts(url: Seq<char>) -> Option<(Seq<char>, Seq<(Seq<char>, Seq<char>)>)>;

pub open spec fn pairs_view(pairs: Seq<(String, String)>) -> Seq<(Seq<char>, Seq<char>)> {
    pairs.map_values(|p: (String, String)| (p.0@, p.1@))
}

pub open spec fn parts_view(parts: Option<(String, Vec<(String, String)>)>) -> Option<
    (Seq<char>, Seq<(Seq<char>, Seq<char>)>),
> {
    match parts {
        Some(p) => Some((p.0@, pairs_view(p.1@))),
        None => None,
    }
}

/// `url::Url::parse` on `url`, then its `path` and `query_pairs`.
#[verifier::external_body]
fn parse_callback_url(url: &str) -> (r: Option<(String, Vec<(String, String)>)>)
    ensures
        parts_view(r) == callback_url_parts(url@),
{
    let parsed = url::Url::parse(url).ok()?;
    let pairs = parsed.query_pairs().map(|(key, value)| (key.into_owned(), value.into_owned())).collect();
    Some((parsed.path().to_owned(), pairs))
}

/// The value of the first pair named `key`.
pub open spec fn first_value(pairs: Seq<(Seq<char>, Seq<char>)>, key: Seq<char>) -> Option<Seq<char>> {
    if exists|i: int| 0 <= i < pairs.len() && pairs[i].0 == key {
        Some(
            pairs[choose|i: int|
                0 <= i < pairs.len() && pairs[i].0 == key && forall|j: int| 0 <= j < i ==> pairs[j].0 != key].1,
        )
    } else {
        None
    }
}

/// Why a callback request did not give an authorization code.
#[derive(Clone, Debug, PartialEq, Eq)]
pub enum OAuthCallbackError {
    MissingRequestTarget,
    InvalidUrl,
    UnexpectedPath(String),
    Provider { error: String, description: Option<String> },
    StateMismatch,
    MissingCode,
}

impl OAuthCallbackError {
    /// Whether the callback server keeps waiting after this request: a
    /// request for another path or with another state is not the sign-in's.
    pub fn is_transient(&self) -> (r: bool)
        ensures
            r == (*self is UnexpectedPath || *self is StateMismatch),
    {
        match self {
            OAuthCallbackError::UnexpectedPath(_) | OAuthCallbackError::StateMismatch => true,
            _ => false,
        }
    }

    pub open spec fn text(self) -> Seq<char> {
        match self {
            OAuthCallbackError::MissingRequestTarget => "OAuth callback request was missing a request target"@,
            OAuthCallbackError::InvalidUrl => "failed to parse the OAuth callback URL"@,
            OAuthCallbackError::UnexpectedPath(p) => "unexpected OAuth callback path `"@ + p@ + "`"@,
            OAuthCallbackError::Provider { error, description } => "OAuth callback returned `"@ + error@ + "`"@
                + match description {
                Some(d) => ": "@ + d@,
                None => Seq::empty(),
            },
            OAuthCallbackError::StateMismatch => "OAuth callback state mismatch"@,
            OAuthCallbackError::MissingCode => "OAuth callback is missing an authorization code"@,
        }
    }

    /// The message of the error.
    pub fn message(&self) -> (r: String)
        ensures
            r@ == self.text(),
    {
        match self {
            OAuthCallbackError::MissingRequestTarget => "OAuth callback request was missing a request target".to_owned(),
            OAuthCallbackError::InvalidUrl => "failed to parse the OAuth callback URL".to_owned(),
            OAuthCallbackError::UnexpectedPath(p) => join3("unexpected OAuth callback path `", p.as_str(), "`"),
            OAuthCallbackError::Provider { error, description } => {
                let head = join3("OAuth callback returned `", error.as_str(), "`");
                match description {
                    Some(d) => join3(head.as_str(), ": ", d.as_str()),
                    None => head,
                }
            },
            OAuthCallbackError::StateMismatch => "OAuth callback state mismatch".to_owned(),
            OAuthCallbackError::MissingCode => "OAuth callback is missing an authorization code".to_owned(),
        }
    }
}

/// What the callback server does with one request: the HTTP response it
/// writes back, if any, and the code or the error.
#[derive(Debug)]
pub struct OAuthCallbackOutcome {
    pub response: Option<String>,
    pub result: Result<String, OAuthCallbackError>,
}

/// An error as texts.
pub enum CallbackErrorView {
    MissingRequestTarget,
    InvalidUrl,
    UnexpectedPath(Seq<char>),
    Provider(Seq<char>, Option<Seq<char>>),
    StateMismatch,
    MissingCode,
}

pub open spec fn error_view(e: OAuthCallbackError) -> CallbackErrorView {
    match e {
        OAuthCallbackError::MissingRequestTarget => CallbackErrorView::MissingRequestTarget,
        OAuthCallbackError::InvalidUrl => CallbackErrorView::InvalidUrl,
        OAuthCallbackError::UnexpectedPath(p) => CallbackErrorView::UnexpectedPath(p@),
        OAuthCallbackError::Provider { error, description } => CallbackErrorView::Provider(
            error@,
            match description {
                Some(d) => Some(d@),
                None => None,
            },
        ),
        OAuthCallbackError::StateMismatch => CallbackErrorView::StateMismatch,
        OAuthCallbackError::MissingCode => CallbackErrorView::MissingCode,
    }
}

pub open spec fn result_view(r: Result<String, OAuthCallbackError>) -> Result<Seq<char>, CallbackErrorView> {
    match r {
        Ok(c) => Ok(c@),
        Err(e) => Err(error_view(e)),
    }
}

/// The response text for a status and a body.
pub open spec fn response_for(code: u16, body: &str) -> Seq<char> {
    crate::codex_usage::http_response_text(code, body@, (body.spec_bytes().len() as usize) as nat)
}

/// The answer to a callback request whose URL has `path` and `pairs`: a
/// foreign path is not found; a provider error fails the sign-in; a state
/// other than `expected` is refused; without a code the request fails
/// unanswered; otherwise the code is taken and the success page shown.
pub open spec fn callback_answer(
    path: Seq<char>,
    pairs: Seq<(Seq<char>, Seq<char>)>,
    expected: Seq<char>,
) -> (Option<Seq<char>>, Result<Seq<char>, CallbackErrorView>) {
    if path != redirect_path() {
        (Some(response_for(404, "Not found")), Err(CallbackErrorView::UnexpectedPath(path)))
    } else if first_value(pairs, "error"@) is Some {
        (
            Some(response_for(400, "Authentication failed")),
            Err(CallbackErrorView::Provider(first_value(pairs, "error"@)->0, first_value(pairs, "error_description"@))),
        )
    } else if first_value(pairs, "state"@) != Some(expected) {
        (Some(response_for(400, "State mismatch")), Err(CallbackErrorView::StateMismatch))
    } else if first_value(pairs, "code"@) is None {
        (None, Err(CallbackErrorView::MissingCode))
    } else {
        (Some(response_for(200, SUCCESS_HTML)), Ok(first_value(pairs, "code"@)->0))
    }
}

pub const SUCCESS_HTML: &'static str =
    "<!doctype html><html><body><p>Authentication successful. Return to Zed.</p></body></html>";

} // verus!

verus! {

/// The value of the first pair named `key`.
fn find_value(pairs: &Vec<(String, String)>, key: &str) -> (r: Option<String>)
    ensures
        match r {
            Some(v) => first_value(pairs_view(pairs@), key@) == Some(v@),
            None => first_value(pairs_view(pairs@), key@) is None,
        },
{
    let ghost ps = pairs_view(pairs@);
    let mut i: usize = 0;
    while i < pairs.len()
        invariant
            ps == pairs_view(pairs@),
            i <= pairs@.len(),
            forall|j: int| 0 <= j < i ==> ps[j].0 != key@,
        decreases pairs@.len() - i,
    {
        if same_text(pairs[i].0.as_str(), key) {
            proof {
                assert(ps[i as int].0 == key@);
                let w = choose|w: int| 0 <= w < ps.len() && ps[w].0 == key@ && forall|j: int| 0 <= j < w ==> ps[j].0 != key@;
                assert(w == i) by {
                    if w > i {
                        assert(ps[i as int].0 == key@);
                    }
                }
            }
            return Some(pairs[i].1.clone());
        }
        i = i + 1;
    }
    None
}

/// The answer to a callback request whose URL has the given path and query
/// pairs, when `expected_state` is the state the sign-in sent.
pub fn oauth_callback_outcome(path: &str, pairs: &Vec<(String, String)>, expected_state: &str) -> (r:
    OAuthCallbackOutcome)
    ensures
        (match r.response {
            Some(t) => Some(t@),
            None => None,
        }, result_view(r.result)) == callback_answer(path@, pairs_view(pairs@), expected_state@),
{
    if !same_text(path, "/auth/callback") {
        proof {
            reveal_strlit("/auth/callback");
        }
        return OAuthCallbackOutcome {
            response: Some(http_response(404, "Not found")),
            result: Err(OAuthCallbackError::UnexpectedPath(path.to_owned())),
        };
    }
    proof {
        reveal_strlit("/auth/callback");
    }
    match find_value(pairs, "error") {
        Some(error) => {
            let description = find_value(pairs, "error_description");
            return OAuthCallbackOutcome {
                response: Some(http_response(400, "Authentication failed")),
                result: Err(OAuthCallbackError::Provider { error, description }),
            };
        },
        None => {},
    }
    let state_matches = match find_value(pairs, "state") {
        Some(s) => same_text(s.as_str(), expected_state),
        None => false,
    };
    if !state_matches {
        return OAuthCallbackOutcome {
            response: Some(http_response(400, "State mismatch")),
            result: Err(OAuthCallbackError::StateMismatch),
        };
    }
    match find_value(pairs, "code") {
        Some(code) => OAuthCallbackOutcome { response: Some(http_response(200, SUCCESS_HTML)), result: Ok(code) },
        None => OAuthCallbackOutcome { response: None, result: Err(OAuthCallbackError::MissingCode) },
    }
}

} // verus!

verus! {

/// The first line of `s`, as `str::lines` gives it.
fn first_line_of(s: &Vec<char>) -> (r: Option<Vec<char>>)
    ensures
        match r {
            Some(l) => first_line(s@) == Some(l@),
            None => first_line(s@) is None,
        },
{
    if s.len() == 0 {
        return None;
    }
    let mut i: usize = 0;
    while i < s.len() && s[i] != '\n'
        invariant
            i <= s@.len(),
            forall|j: int| 0 <= j < i ==> s@[j] != '\n',
        decreases s@.len() - i,
    {
        i = i + 1;
    }
    let end = if i < s.len() && i > 0 && s[i - 1] == '\r' {
        i - 1
    } else {
        i
    };
    let mut line: Vec<char> = Vec::new();
    for k in 0..end
        invariant
            end <= s@.len(),
            line@ == s@.take(k as int),
    {
        line.push(s[k]);
        assert(s@.take(k + 1) == s@.take(k as int).push(s@[k as int]));
    }
    proof {
        if i < s.len() {
            let w = choose|w: int| 0 <= w < s@.len() && s@[w] == '\n' && forall|j: int| 0 <= j < w ==> s@[j] != '\n';
            assert(w == i) by {
                if w > i {
                    assert(s@[i as int] == '\n');
                }
            }
        } else {
            assert(s@.take(s@.len() as int) == s@);
        }
    }
    Some(line)
}

/// The words of `s`, as `str::split_whitespace` gives them.
fn words_of(s: &Vec<char>) -> (r: Vec<String>)
    ensures
        r@.map_values(|w: String| w@) == words(s@),
{
    let mut done: Vec<String> = Vec::new();
    let mut open: Vec<char> = Vec::new();
    for i in 0..s.len()
        invariant
            (done@.map_values(|w: String| w@), open@) == words_state(s@.take(i as int)),
    {
        let c = s[i];
        assert(s@.take(i + 1).drop_last() == s@.take(i as int));
        assert(s@.take(i + 1).last() == c);
        if is_white_space_char(c) {
            if open.len() > 0 {
                let w = string_of(&open);
                let ghost before = done@;
                done.push(w);
                assert(done@.map_values(|w: String| w@) =~= before.map_values(|w: String| w@).push(open@));
                open = Vec::new();
            }
        } else {
            open.push(c);
        }
    }
    assert(s@.take(s@.len() as int) == s@);
    if open.len() > 0 {
        let w = string_of(&open);
        let ghost before = done@;
        done.push(w);
        assert(done@.map_values(|w: String| w@) =~= before.map_values(|w: String| w@).push(open@));
    }
    done
}

/// The request target of the request text `request`.
pub fn request_target_of(request: &str) -> (r: Option<String>)
    ensures
        match r {
            Some(t) => request_target(request@) == Some(t@),
            None => request_target(request@) is None,
        },
{
    let cs = chars_of(request);
    match first_line_of(&cs) {
        Some(line) => {
            let ws = words_of(&line);
            if ws.len() >= 2 {
                assert(ws@.map_values(|w: String| w@)[1] == ws@[1]@);
                Some(ws[1].clone())
            } else {
                None
            }
        },
        None => None,
    }
}

/// Handles one request to the callback server, read as `request`, for the
/// sign-in that sent `expected_state`: the request target is taken from its
/// first line and resolved against `http://localhost`.
pub fn handle_oauth_connection(request: &[u8], expected_state: &str) -> (r: OAuthCallbackOutcome)
    ensures
        match request_target(utf8_lossy(request@)) {
            None => r.response is None && r.result == Err::<String, OAuthCallbackError>(
                OAuthCallbackError::MissingRequestTarget,
            ),
            Some(t) => match callback_url_parts("http://localhost"@ + t) {
                None => r.response is None && r.result == Err::<String, OAuthCallbackError>(
                    OAuthCallbackError::InvalidUrl,
                ),
                Some(parts) => (match r.response {
                    Some(x) => Some(x@),
                    None => None,
                }, result_view(r.result)) == callback_answer(parts.0, parts.1, expected_state@),
            },
        },
{
    let text = lossy_text(request);
    let target = match request_target_of(text.as_str()) {
        Some(t) => t,
        None => {
            return OAuthCallbackOutcome { response: None, result: Err(OAuthCallbackError::MissingRequestTarget) };
        },
    };
    let url = join2("http://localhost", target.as_str());
    proof {
        reveal_strlit("http://localhost");
    }
    match parse_callback_url(url.as_str()) {
        Some((path, pairs)) => oauth_callback_outcome(path.as_str(), &pairs, expected_state),
        None => OAuthCallbackOutcome { response: None, result: Err(OAuthCallbackError::InvalidUrl) },
    }
}

/// The URL `base` with `pairs` appended to its query, form-encoded, as the
/// `url` crate writes it; `None` where `base` does not parse as a URL.
pub uninterp spec fn url_with_query_pairs(
    base: Seq<char>,
    pairs: Seq<(Seq<char>, Seq<char>)>,
) -> Option<Seq<char>>;

/// Parses `base` with `url::Url::parse` and appends `pairs` through
/// `query_pairs_mut().extend_pairs`; the text is the URL's serialisation.
/// What it spells is named, not stated.
#[verifier::external_body]
fn append_query_pairs(base: &str, pairs: &Vec<(String, String)>) -> (r: Option<String>)
    ensures
        match r {
            Some(u) => url_with_query_pairs(base@, pairs_view(pairs@)) == Some(u@),
            None => url_with_query_pairs(base@, pairs_view(pairs@)) is None,
        },
{
    let mut url = url::Url::parse(base).ok()?;
    url.query_pairs_mut().extend_pairs(pairs.iter());
    Some(url.into())
}

/// The client id the sign-in presents.
pub fn oauth_client_id() -> (r: &'static str)
    ensures
        r@ == "app_EMoamEEZ73f0CkXaXp7hrann"@,
{
    "app_EMoamEEZ73f0CkXaXp7hrann"
}

/// The page where the browser sign-in starts.
pub open spec fn authorize_endpoint() -> Seq<char> {
    "https://auth.openai.com/oauth/authorize"@
}

/// The query of the sign-in page, in order: a code flow for the client,
/// back to `redirect_uri`, with the PKCE `challenge` (S256) and `state`.
pub open spec fn authorize_pairs(redirect_uri: Seq<char>, challenge: Seq<char>, state: Seq<char>) -> Seq<
    (Seq<char>, Seq<char>),
> {
    seq![
        ("response_type"@, "code"@),
        ("client_id"@, "app_EMoamEEZ73f0CkXaXp7hrann"@),
        ("redirect_uri"@, redirect_uri),
        ("scope"@, "openid email profile offline_access"@),
        ("prompt"@, "login"@),
        ("code_challenge"@, challenge),
        ("code_challenge_method"@, "S256"@),
        ("state"@, state),
        ("id_token_add_organizations"@, "true"@),
        ("codex_cli_simplified_flow"@, "true"@),
    ]
}

fn text_pair(key: &str, value: &str) -> (r: (String, String))
    ensures
        r.0@ == key@,
        r.1@ == value@,
{
    (key.to_owned(), value.to_owned())
}

/// The query pairs of the sign-in page.
pub fn authorize_query_pairs(redirect_uri: &str, challenge: &str, oauth_state: &str) -> (r: Vec<
    (String, String),
>)
    ensures
        pairs_view(r@) == authorize_pairs(redirect_uri@, challenge@, oauth_state@),
{
    let r = vec![
        text_pair("response_type", "code"),
        text_pair("client_id", oauth_client_id()),
        text_pair("redirect_uri", redirect_uri),
        text_pair("scope", "openid email profile offline_access"),
        text_pair("prompt", "login"),
        text_pair("code_challenge", challenge),
        text_pair("code_challenge_method", "S256"),
        text_pair("state", oauth_state),
        text_pair("id_token_add_organizations", "true"),
        text_pair("codex_cli_simplified_flow", "true"),
    ];
    assert(pairs_view(r@) =~= authorize_pairs(redirect_uri@, challenge@, oauth_state@));
    r
}

/// The address that starts the browser sign-in; `None` only where the
/// sign-in page's address would not parse.
pub fn build_authorize_url(redirect_uri: &str, challenge: &str, oauth_state: &str) -> (r: Option<String>)
    ensures
        match r {
            Some(u) => url_with_query_pairs(
                authorize_endpoint(),
                authorize_pairs(redirect_uri@, challenge@, oauth_state@),
            ) == Some(u@),
            None => url_with_query_pairs(
                authorize_endpoint(),
                authorize_pairs(redirect_uri@, challenge@, oauth_state@),
            ) is None,
        },
{
    let pairs = authorize_query_pairs(redirect_uri, challenge, oauth_state);
    append_query_pairs("https://auth.openai.com/oauth/authorize", &pairs)
}

} // verus!
