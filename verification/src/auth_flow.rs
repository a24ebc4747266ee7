use vstd::prelude::*;

use crate::codec::{max_cookie_time, min_cookie_time, rendered_cookie};
use crate::http::{HeaderMap, HttpResponse, HttpVersion, StatusCode};
use crate::json::{get_spec, merged, Json, JsonValue, json_view, json_wf};
use crate::json_text::{json_parsing, parse_json};
use crate::oauth::{
    build_error_response, build_session_redirect, callback_check, callback_readable, callback_start,
    callback_token_refusal, claims_field, merge_claims, ClaimsField, session_expiry, session_seconds,
    claims_not_json_message, first_hint, is_refusal, logout_location_spec, logout_needs_hints,
    logout_needs_id_tokens, logout_response, opt_view, redirect_headers, session_seconds_spec, token_check,
    token_claims, token_claims_spec, token_parts_ok, values_view, ClaimsError, LogoutOutcome, OauthConfig,
    OauthCookies, TokenResponse,
};

verus! {

/// Where the answer to an OIDC callback request stands between the outside calls it makes.
pub enum CallbackState {
    /// The request has arrived; nothing was called yet.
    Arrived,
    /// The token endpoint was asked to trade the access code.
    TokenAsked,
    /// A fresh session id was asked for; the session's claims and the token's `expires_in`.
    SessionIdAsked(Json, Option<u32>),
    /// The request is answered.
    Answered,
}

/// What the caller reports back after doing the last action.
pub enum CallbackEvent {
    /// The request is to be handled.
    Begin,
    /// The token endpoint's answer: the last status and body it read, if any.
    TokenAnswered(Option<StatusCode>, Option<TokenResponse>),
    /// A fresh identifier.
    FreshId(String),
}

/// Why the callback ends the operation with an error.
pub enum CallbackFailure {
    /// The ID token's claims cannot be read.
    Claims(ClaimsError),
    /// A token's claims are not JSON: serde_json's message.
    Json(String),
}

/// What the caller does next.
pub enum CallbackAction {
    /// Ask the token endpoint to trade this access code, with this redirect URI.
    AskToken(String, String),
    /// Draw a fresh identifier for the session.
    DrawSessionId,
    /// Store the token answer's body under this session id with this end, then these claims
    /// (as JSON text) under the same id, then send this response.
    StoreAndAnswer(String, i64, Json, HttpResponse),
    /// Send this response; the request is done.
    Answer(HttpResponse),
    /// End the operation with this error.
    Fail(CallbackFailure),
}

/// Whether an event is the one that the state waits for, and holds what the next step needs
/// to answer without panicking: the parameters that the callback indexes, tokens that split
/// into parts where the token answer passed its checks, and a session end that a cookie date
/// holds.
pub open spec fn callback_step_ready(
    config: OauthConfig,
    cookies: OauthCookies,
    query: HeaderMap,
    now: i64,
    state: CallbackState,
    event: CallbackEvent,
) -> bool {
    match (state, event) {
        (CallbackState::Arrived, CallbackEvent::Begin) => callback_readable(query.view(), opt_view(cookies.auth_state)),
        (CallbackState::TokenAsked, CallbackEvent::TokenAnswered(status, body)) =>
            token_check(status, body) is None ==> token_parts_ok(body.unwrap()),
        (CallbackState::SessionIdAsked(_, e), CallbackEvent::FreshId(_)) => {
            &&& config.session_cookie_duration_minutes * 60 <= u32::MAX
            &&& min_cookie_time() <= now + session_seconds_spec(e, config.session_cookie_duration_minutes)
                <= max_cookie_time()
        },
        _ => false,
    }
}

/// What the callback makes of the claims texts of a token answer that passed its checks: the
/// error of the first text that serde_json does not read; the refusal where the two values do
/// not merge; else the session's claims.
pub open spec fn claims_outcome(access: Seq<char>, id: Seq<char>) -> Result<Option<JsonValue>, Seq<char>> {
    match json_parsing(access) {
        Err(e) => Err(e),
        Ok(va) => match json_parsing(id) {
            Err(e) => Err(e),
            Ok(vi) => Ok(merged(va, vi)),
        },
    }
}

/// The redirect that completes a login: back to the `return_url` cookie (or `/`), setting the
/// session cookie to the session id until the session's end.
pub open spec fn is_session_redirect(
    resp: HttpResponse,
    config: OauthConfig,
    cookies: OauthCookies,
    session_id: Seq<char>,
    expires_at: i64,
) -> bool {
    &&& resp.version == HttpVersion::Http11
    &&& resp.status == StatusCode::TemporaryRedirect
    &&& resp.headers.view() == redirect_headers(
        match opt_view(cookies.return_url) { Some(u) => u, None => "/"@ },
        seq![rendered_cookie(config.session_cookie_name@, session_id, expires_at)],
    )
}

/// One step of the callback: from where the answer stands and what the caller reports, where
/// it stands next and what the caller does. The token endpoint is asked only with the code of
/// a callback that passed its checks, and the configured redirect URI; the tokens' claims are
/// read only from an answer that passed its checks; a session id is drawn only once the claims
/// are parsed and merge; the token and the claims are stored under that one id, the token
/// first.
pub fn callback_step(
    config: &OauthConfig,
    cookies: &OauthCookies,
    query: &HeaderMap,
    now: i64,
    state: CallbackState,
    event: CallbackEvent,
) -> (out: (CallbackState, CallbackAction))
    requires
        callback_step_ready(*config, *cookies, *query, now, state, event),
    ensures
        match (state, event) {
            (CallbackState::Arrived, CallbackEvent::Begin) => match callback_check(query.view(), opt_view(cookies.auth_state)) {
                Ok(code) => out.0 is TokenAsked
                    && (out.1 matches CallbackAction::AskToken(c, uri) && c@ == code && uri@ == config.redirect_uri@),
                Err(reason) => out.0 is Answered && (out.1 matches CallbackAction::Answer(r) && is_refusal(r, reason)),
            },
            (CallbackState::TokenAsked, CallbackEvent::TokenAnswered(status, body)) => match token_check(status, body) {
                Some(reason) => out.0 is Answered && (out.1 matches CallbackAction::Answer(r) && is_refusal(r, reason)),
                None => match token_claims_spec(body.unwrap()) {
                    Err(e) => out.0 is Answered && out.1 == CallbackAction::Fail(CallbackFailure::Claims(e)),
                    Ok((a, i)) => match claims_outcome(a, i) {
                        Err(e) => out.0 is Answered
                            && (out.1 matches CallbackAction::Fail(CallbackFailure::Json(m)) && m@ == e),
                        Ok(None) => out.0 is Answered
                            && (out.1 matches CallbackAction::Answer(r) && is_refusal(r, claims_not_json_message())),
                        Ok(Some(m)) => (out.0 matches CallbackState::SessionIdAsked(claims, x) && json_view(claims) == m
                            && x == body.unwrap().expires_in) && out.1 is DrawSessionId,
                    },
                },
            },
            (CallbackState::SessionIdAsked(claims, e), CallbackEvent::FreshId(sid)) => out.0 is Answered
                && (out.1 matches CallbackAction::StoreAndAnswer(s, expires_at, c, resp) && {
                    &&& s@ == sid@
                    &&& expires_at == now + session_seconds_spec(e, config.session_cookie_duration_minutes)
                    &&& c == claims
                    &&& is_session_redirect(resp, *config, *cookies, sid@, expires_at)
                }),
            _ => false,
        },
{
    match (state, event) {
        (CallbackState::Arrived, CallbackEvent::Begin) => match callback_start(query, cookies) {
            Ok(code) => (CallbackState::TokenAsked, CallbackAction::AskToken(code, config.redirect_uri.clone())),
            Err(resp) => (CallbackState::Answered, CallbackAction::Answer(resp)),
        },
        (CallbackState::TokenAsked, CallbackEvent::TokenAnswered(status, body)) => {
            match callback_token_refusal(status, body.as_ref()) {
                Some(resp) => (CallbackState::Answered, CallbackAction::Answer(resp)),
                None => {
                    let b = body.unwrap();
                    let (a, i) = match token_claims(&b) {
                        Ok(texts) => texts,
                        Err(e) => {
                            return (CallbackState::Answered, CallbackAction::Fail(CallbackFailure::Claims(e)));
                        },
                    };
                    let access = match parse_json(a.as_str()) {
                        Ok(j) => j,
                        Err(m) => {
                            return (CallbackState::Answered, CallbackAction::Fail(CallbackFailure::Json(m)));
                        },
                    };
                    let id = match parse_json(i.as_str()) {
                        Ok(j) => j,
                        Err(m) => {
                            return (CallbackState::Answered, CallbackAction::Fail(CallbackFailure::Json(m)));
                        },
                    };
                    match merge_claims(&access, &id) {
                        Ok(claims) => (CallbackState::SessionIdAsked(claims, b.expires_in), CallbackAction::DrawSessionId),
                        Err(reason) => (
                            CallbackState::Answered,
                            CallbackAction::Answer(build_error_response(reason.as_str())),
                        ),
                    }
                },
            }
        },
        (CallbackState::SessionIdAsked(claims, e), CallbackEvent::FreshId(sid)) => {
            let seconds = session_seconds(e, config.session_cookie_duration_minutes);
            let expires_at = session_expiry(now, seconds);
            let resp = build_session_redirect(config, &cookies.return_url, sid.as_str(), expires_at);
            (CallbackState::Answered, CallbackAction::StoreAndAnswer(sid, expires_at, claims, resp))
        },
        _ => (CallbackState::Answered, CallbackAction::DrawSessionId),
    }
}

/// Where the answer to a logout request stands between the lookups it makes.
pub enum LogoutState {
    /// The request has arrived; nothing was looked up yet.
    Arrived,
    /// The session's login hints were asked for.
    HintsAsked,
    /// The session's ID tokens were asked for; the login-hint answers.
    IdTokensAsked(Vec<Json>),
    /// The request is answered.
    Answered,
}

/// What the caller reports back after a lookup.
pub enum LogoutEvent {
    /// The request is to be handled.
    Begin,
    /// The login-hint lookup's answers.
    Hints(Vec<Json>),
    /// The session's ID tokens.
    IdTokens(Vec<String>),
}

/// What the caller does next.
pub enum LogoutAction {
    /// Look up the login hints of this session.
    AskHints(String),
    /// Look up the ID tokens of this session.
    AskIdTokens(String),
    /// Answer the request; a redirect then ends the operation.
    Answer(LogoutOutcome),
}

/// Whether an event is the one that the state waits for (the hints are asked for a request
/// with a session cookie only), and, where there is a session cookie to clear, at a time whose
/// cleared cookie a cookie date holds.
pub open spec fn logout_step_ready(cookies: OauthCookies, now: i64, state: LogoutState, event: LogoutEvent) -> bool {
    &&& cookies.session_id is Some ==> min_cookie_time() + 1 <= now <= max_cookie_time() + 1
    &&& match (state, event) {
        (LogoutState::Arrived, LogoutEvent::Begin) => true,
        (LogoutState::HintsAsked, LogoutEvent::Hints(_)) => cookies.session_id is Some,
        (LogoutState::IdTokensAsked(_), LogoutEvent::IdTokens(_)) => true,
        _ => false,
    }
}

/// The answer to a logout, given the hints and ID tokens looked up: without a session cookie,
/// the refusal `Session cookie does not exist`; else the redirect to the logout location that
/// clears the session cookie.
pub open spec fn is_logout_answer(
    out: LogoutOutcome,
    config: OauthConfig,
    cookies: OauthCookies,
    now: i64,
    hints: Seq<Json>,
    id_tokens: Seq<Seq<char>>,
) -> bool {
    match out {
        LogoutOutcome::Refused(r) => cookies.session_id.is_none() && is_refusal(r, "Session cookie does not exist"@),
        LogoutOutcome::Redirect(r) => cookies.session_id.is_some()
            && r.status == StatusCode::TemporaryRedirect && r.version == HttpVersion::Http11
            && r.headers.view() == redirect_headers(
                logout_location_spec(config, values_view(hints), id_tokens),
                seq![rendered_cookie(config.session_cookie_name@, "expired"@, (now - 1) as i64)],
            ),
    }
}

/// One step of a logout: the login hints are looked up only for a session that redirects its
/// logout, the ID tokens only where no login hint was found, and the answer comes once
/// nothing more is needed.
pub fn logout_step(config: &OauthConfig, cookies: &OauthCookies, now: i64, state: LogoutState, event: LogoutEvent)
    -> (out: (LogoutState, LogoutAction))
    requires
        logout_step_ready(*cookies, now, state, event),
    ensures
        match (state, event) {
            (LogoutState::Arrived, LogoutEvent::Begin) =>
                if cookies.session_id is Some && config.redirect_logout@ == "true"@ {
                    out.0 is HintsAsked
                        && (out.1 matches LogoutAction::AskHints(sid) && sid@ == cookies.session_id.unwrap()@)
                } else {
                    out.0 is Answered
                        && (out.1 matches LogoutAction::Answer(o) && is_logout_answer(o, *config, *cookies, now, seq![], seq![]))
                },
            (LogoutState::HintsAsked, LogoutEvent::Hints(hints)) =>
                if config.redirect_logout@ == "true"@ && first_hint(values_view(hints@)).is_none() {
                    (out.0 matches LogoutState::IdTokensAsked(h) && h@ == hints@)
                        && (out.1 matches LogoutAction::AskIdTokens(sid) && sid@ == cookies.session_id.unwrap()@)
                } else {
                    out.0 is Answered
                        && (out.1 matches LogoutAction::Answer(o) && is_logout_answer(o, *config, *cookies, now, hints@, seq![]))
                },
            (LogoutState::IdTokensAsked(hints), LogoutEvent::IdTokens(tokens)) => out.0 is Answered
                && (out.1 matches LogoutAction::Answer(o) && is_logout_answer(o, *config, *cookies, now, hints@, tokens.deep_view())),
            _ => false,
        },
{
    match (state, event) {
        (LogoutState::Arrived, LogoutEvent::Begin) => {
            if logout_needs_hints(config, cookies) {
                let sid = cookies.session_id.clone().unwrap();
                (LogoutState::HintsAsked, LogoutAction::AskHints(sid))
            } else {
                let none: Vec<Json> = Vec::new();
                let no_tokens: Vec<String> = Vec::new();
                assert(values_view(none@) =~= seq![]);
                assert(no_tokens.deep_view() =~= seq![]);
                let answer = logout_response(config, cookies, now, &none, &no_tokens);
                assert(none@ =~= seq![]);
                (LogoutState::Answered, LogoutAction::Answer(answer))
            }
        },
        (LogoutState::HintsAsked, LogoutEvent::Hints(hints)) => {
            if logout_needs_id_tokens(config, &hints) {
                let sid = cookies.session_id.clone().unwrap();
                (LogoutState::IdTokensAsked(hints), LogoutAction::AskIdTokens(sid))
            } else {
                let no_tokens: Vec<String> = Vec::new();
                assert(no_tokens.deep_view() =~= seq![]);
                let answer = logout_response(config, cookies, now, &hints, &no_tokens);
                (LogoutState::Answered, LogoutAction::Answer(answer))
            }
        },
        (LogoutState::IdTokensAsked(hints), LogoutEvent::IdTokens(tokens)) => {
            let answer = logout_response(config, cookies, now, &hints, &tokens);
            (LogoutState::Answered, LogoutAction::Answer(answer))
        },
        _ => (LogoutState::Answered, LogoutAction::AskHints(String::new())),
    }
}

/// The claims of a stored-claims answer, as the middleware reads them.
pub enum StoredClaims {
    /// The answer has no `claims` member.
    Missing,
    /// The claims: the member's value, or the JSON that its text holds.
    Claims(Json),
    /// The member is a text that serde_json does not read (serde_json's message).
    Unreadable(String),
}

/// Reads the claims of a stored-claims answer: its `claims` member, where that is a text the
/// JSON value that serde_json reads from it.
pub fn stored_claims(answer: &Json) -> (out: StoredClaims)
    ensures
        match get_spec(json_view(*answer), "claims"@) {
            None => out is Missing,
            Some(JsonValue::String(t)) => match json_parsing(t) {
                Ok(v) => out matches StoredClaims::Claims(c) && json_view(c) == v && json_wf(c),
                Err(e) => out matches StoredClaims::Unreadable(m) && m@ == e,
            },
            Some(v) => out matches StoredClaims::Claims(c) && json_view(c) == v,
        },
{
    match claims_field(answer) {
        ClaimsField::Missing => StoredClaims::Missing,
        ClaimsField::Text(t) => match parse_json(t.as_str()) {
            Ok(c) => StoredClaims::Claims(c),
            Err(m) => StoredClaims::Unreadable(m),
        },
        ClaimsField::Value(v) => StoredClaims::Claims(v),
    }
}

/// How the oidc operation begins a request.
pub enum OidcStart {
    /// Without a session cookie: the request is answered by a login redirect.
    Login,
    /// Look up the stored claims of this session; each answer is then handled in turn.
    LookUpClaims(String),
}

/// How the oidc operation begins a request: a login redirect without a session cookie, else a
/// lookup of the session's stored claims.
pub fn oidc_start(cookies: &OauthCookies) -> (out: OidcStart)
    ensures
        match cookies.session_id {
            None => out is Login,
            Some(id) => out matches OidcStart::LookUpClaims(s) && s@ == id@,
        },
{
    match &cookies.session_id {
        None => OidcStart::Login,
        Some(id) => OidcStart::LookUpClaims(id.clone()),
    }
}

} // verus!
