use wick_components::auth_flow::{
    callback_step, logout_step, oidc_start, stored_claims, CallbackAction, CallbackEvent, CallbackFailure, CallbackState, LogoutAction, LogoutEvent, LogoutState,
    OidcStart, StoredClaims,
};
use wick_components::http::{HeaderMap, StatusCode};
use wick_components::json::{json_eq, Json};
use wick_components::http::{HttpMethod, HttpRequest, RequestMiddlewareResponse};
use wick_components::oauth::{
    build_auth_redirect_response, callback_finish, callback_start, callback_token_refusal, get_user_answers,
    oidc_answer, last_token_answer, login_time_ok, logout_needs_hints, logout_time_ok, session_end_ok,
    build_error_response, build_redirect_response, check_callback,
    check_token_response, get_oidc_claims, logout_location, logout_needs_id_tokens, merge_claims,
    parse_cookies_header, route, session_expiry, session_seconds, session_steps, user_answer,
    ClaimsError, LogoutOutcome, OauthConfig, OauthCookies, OauthRoute, SessionDetails, SessionStep, TokenResponse,
};

fn config(redirect_logout: &str) -> OauthConfig {
    OauthConfig {
        auth_endpoint: "https://idp/auth".to_string(),
        logout_endpoint: "https://idp/logout".to_string(),
        redirect_uri: "https://app/oidc/callback".to_string(),
        logout_redirect_uri: "https://app/".to_string(),
        redirect_logout: redirect_logout.to_string(),
        client_id: "client".to_string(),
        scope: "openid email".to_string(),
        session_cookie_name: "sid".to_string(),
        session_cookie_duration_minutes: 0,
        email_claim: "email".to_string(),
        groups_claim: Some("groups".to_string()),
    }
}

fn header(name: &str, value: &str) -> HeaderMap {
    let mut h = HeaderMap::new();
    h.insert(name.to_string(), vec![value.to_string()]);
    h
}

fn s(v: &str) -> Json {
    Json::String(v.to_string())
}

fn obj(fields: Vec<(&str, Json)>) -> Json {
    Json::Object(fields.into_iter().map(|(k, v)| (k.to_string(), v)).collect())
}

#[test]
fn reads_the_three_cookies() {
    let h = header("cookie", "auth_state=st; return_url=/home; sid=abc");
    let c = parse_cookies_header(&h, "sid");
    assert_eq!(c.auth_state.as_deref(), Some("st"));
    assert_eq!(c.return_url.as_deref(), Some("/home"));
    assert_eq!(c.session_id.as_deref(), Some("abc"));
    let none = parse_cookies_header(&HeaderMap::new(), "sid");
    assert!(none.auth_state.is_none() && none.session_id.is_none());
}

#[test]
fn error_response_carries_the_reason() {
    let r = build_error_response("State cookie does not exist");
    assert_eq!(r.status, StatusCode::BadRequest);
    assert_eq!(
        r.headers.get("x-oauth-error").cloned(),
        Some(vec!["State cookie does not exist".to_string()])
    );
}

#[test]
fn redirect_sets_location_and_cookies() {
    let r = build_redirect_response("/next", Some(vec!["a=1".to_string()]));
    assert_eq!(r.status, StatusCode::TemporaryRedirect);
    assert_eq!(r.headers.get("location").cloned(), Some(vec!["/next".to_string()]));
    assert_eq!(r.headers.get("set-cookie").cloned(), Some(vec!["a=1".to_string()]));
    let bare = build_redirect_response("/x", None);
    assert!(bare.headers.get("set-cookie").is_none());
}

#[test]
fn auth_redirect_location_and_cookies() {
    let r = build_auth_redirect_response(&config("false"), "st8", "/back", 1_700_000_000);
    let location = r.headers.get("location").cloned().unwrap();
    assert_eq!(
        location,
        vec!["https://idp/auth?response_type=code&client_id=client&redirect_uri=https://app/oidc/callback&scope=openid%20email&state=st8".to_string()]
    );
    let cookies = r.headers.get("set-cookie").cloned().unwrap();
    assert_eq!(cookies.len(), 3);
    assert!(cookies[0].starts_with("auth_state=st8"));
    assert!(cookies[1].starts_with("return_url=/back"));
    assert!(cookies[2].starts_with("sid=expired"));
}

#[test]
fn callback_checks() {
    let mut q = HeaderMap::new();
    let cookies = OauthCookies { auth_state: Some("st".to_string()), return_url: None, session_id: None };
    assert_eq!(check_callback(&q, &cookies), Err("State or code parameter does not exist".to_string()));
    q.insert("state".to_string(), vec!["st".to_string()]);
    q.insert("code".to_string(), vec!["c0de".to_string()]);
    assert_eq!(check_callback(&q, &cookies), Ok("c0de".to_string()));
    let none = OauthCookies { auth_state: None, return_url: None, session_id: None };
    assert_eq!(check_callback(&q, &none), Err("State cookie does not exist".to_string()));
    let other = OauthCookies { auth_state: Some("xx".to_string()), return_url: None, session_id: None };
    assert_eq!(check_callback(&q, &other), Err("State cookie and response don't match".to_string()));
}

#[test]
fn callback_checks_on_empty_parameter_lists() {
    let cookies = OauthCookies { auth_state: Some("st".to_string()), return_url: None, session_id: None };
    let mut only_state = HeaderMap::new();
    only_state.insert("state".to_string(), vec![]);
    assert_eq!(check_callback(&only_state, &cookies), Err("State or code parameter does not exist".to_string()));
    let refused = callback_start(&only_state, &cookies).err().unwrap();
    assert_eq!(
        refused.headers.get("x-oauth-error").cloned(),
        Some(vec!["State or code parameter does not exist".to_string()])
    );
    let mut no_code = HeaderMap::new();
    no_code.insert("state".to_string(), vec!["other".to_string()]);
    no_code.insert("code".to_string(), vec![]);
    assert_eq!(check_callback(&no_code, &cookies), Err("State cookie and response don't match".to_string()));
    let none = OauthCookies { auth_state: None, return_url: None, session_id: None };
    let mut both_empty = HeaderMap::new();
    both_empty.insert("state".to_string(), vec![]);
    both_empty.insert("code".to_string(), vec![]);
    assert_eq!(check_callback(&both_empty, &none), Err("State cookie does not exist".to_string()));
}

#[test]
fn token_answer_checks() {
    let good = TokenResponse {
        access_token: "a".to_string(),
        token_type: "Bearer".to_string(),
        id_token: None,
        expires_in: None,
    };
    assert_eq!(check_token_response(Some(StatusCode::OK), Some(&good)), None);
    assert_eq!(
        check_token_response(None, Some(&good)),
        Some("Token endpoint returned error".to_string())
    );
    assert_eq!(
        check_token_response(Some(StatusCode::Forbidden), Some(&good)),
        Some("Token endpoint returned error".to_string())
    );
    let empty = TokenResponse { access_token: String::new(), ..good };
    assert_eq!(
        check_token_response(Some(StatusCode::OK), Some(&empty)),
        Some("Token endpoint returned invalid response".to_string())
    );
}

#[test]
fn claims_of_a_token() {
    // header.{"sub":"u1"}.signature, url-safe base64 without padding
    assert_eq!(get_oidc_claims("x.eyJzdWIiOiJ1MSJ9.y"), Ok("{\"sub\":\"u1\"}".to_string()));
    assert_eq!(get_oidc_claims("x.!!!.y"), Err(ClaimsError::InvalidBase64));
}

#[test]
fn id_claims_win_when_merged() {
    let access = obj(vec![("sub", s("a")), ("scope", s("x"))]);
    let id = obj(vec![("sub", s("b")), ("email", s("e@x"))]);
    let m = merge_claims(&access, &id).unwrap();
    assert!(json_eq(&m, &obj(vec![("sub", s("b")), ("scope", s("x")), ("email", s("e@x"))])));
    assert_eq!(
        merge_claims(&access, &s("text")).err(),
        Some("Access or ID token claims are not valid JSON".to_string())
    );
}

#[test]
fn session_length_and_expiry() {
    assert_eq!(session_seconds(None, 0), 3600);
    assert_eq!(session_seconds(Some(120), 0), 120);
    assert_eq!(session_seconds(Some(120), 5), 300);
    assert_eq!(session_expiry(1000, 300), 1300);
}

#[test]
fn routes() {
    assert_eq!(route("/oidc/callback"), OauthRoute::Callback);
    assert_eq!(route("/oidc/logout"), OauthRoute::Logout);
    assert_eq!(route("/api"), OauthRoute::Other);
}

#[test]
fn session_steps_per_stored_session() {
    assert_eq!(session_steps(false, &vec![], 10), vec![SessionStep::Login]);
    let sessions = vec![
        SessionDetails { access_token: "t".to_string(), expires_at: 20 },
        SessionDetails { access_token: "t".to_string(), expires_at: 5 },
        SessionDetails { access_token: String::new(), expires_at: 20 },
    ];
    assert_eq!(
        session_steps(true, &sessions, 10),
        vec![SessionStep::Forward, SessionStep::Login, SessionStep::Login, SessionStep::Login]
    );
}

#[test]
fn logout_locations() {
    let hints = vec![obj(vec![("login_hint", s(""))]), obj(vec![("login_hint", s("h1"))])];
    assert_eq!(logout_location(&config("false"), &hints, &vec![]), "https://idp/logout");
    assert!(!logout_needs_id_tokens(&config("true"), &hints));
    assert_eq!(
        logout_location(&config("true"), &hints, &vec![]),
        "https://idp/logout?post_logout_redirect_uri=https://app/&logout_hint=h1"
    );
    assert!(logout_needs_id_tokens(&config("true"), &vec![]));
    assert_eq!(
        logout_location(&config("true"), &vec![], &vec!["t1".to_string()]),
        "https://idp/logout?post_logout_redirect_uri=https://app/&id_token_hint=t1"
    );
}

#[test]
fn user_answers() {
    let claims = obj(vec![
        ("sub", s("u1")),
        ("email", s("e@x")),
        ("groups", Json::Array(vec![s("g1"), s("g2")])),
    ]);
    let (res, user) = user_answer(Some(&claims), &config("false"));
    assert_eq!(res.status, StatusCode::OK);
    assert_eq!(user.sub, "u1");
    assert_eq!(user.email, "e@x");
    assert_eq!(user.groups, vec!["g1".to_string(), "g2".to_string()]);
    let (bad, empty) = user_answer(None, &config("false"));
    assert_eq!(bad.status, StatusCode::BadRequest);
    assert_eq!(bad.headers.get("x-oauth-error").cloned(), Some(vec!["Invalid OIDC Claims".to_string()]));
    assert!(empty.sub.is_empty() && empty.groups.is_empty());
}

#[test]
fn callback_steps() {
    let mut q = HeaderMap::new();
    q.insert("state".to_string(), vec!["st".to_string()]);
    q.insert("code".to_string(), vec!["c0de".to_string()]);
    let cookies = OauthCookies {
        auth_state: Some("st".to_string()),
        return_url: Some("/home".to_string()),
        session_id: None,
    };
    assert_eq!(callback_start(&q, &cookies).ok(), Some("c0de".to_string()));
    let refused = callback_start(&HeaderMap::new(), &cookies).err().unwrap();
    assert_eq!(refused.status, StatusCode::BadRequest);
    assert!(callback_token_refusal(None, None).is_some());
    let access = obj(vec![("sub", s("a"))]);
    let id = obj(vec![("email", s("e@x"))]);
    let (claims, expires_at, resp) = match callback_finish(&config("false"), &cookies, &access, &id, "sess-1", Some(600), 1000) {
        Ok(done) => done,
        Err(_) => panic!("claims are objects"),
    };
    assert!(json_eq(&claims, &obj(vec![("sub", s("a")), ("email", s("e@x"))])));
    assert_eq!(expires_at, 1600);
    assert_eq!(resp.status, StatusCode::TemporaryRedirect);
    assert_eq!(resp.headers.get("location").cloned(), Some(vec!["/home".to_string()]));
    let set = resp.headers.get("set-cookie").cloned().unwrap();
    assert!(set[0].starts_with("sid=sess-1"));
    assert!(callback_finish(&config("false"), &cookies, &s("x"), &id, "sess-1", None, 1000).is_err());
}

#[test]
fn get_user_answer_lists() {
    let none = get_user_answers(false, &vec![], &config("false"));
    assert_eq!(none.len(), 1);
    assert_eq!(
        none[0].0.headers.get("x-oauth-error").cloned(),
        Some(vec!["Session Cookie does not exist".to_string()])
    );
    assert!(none[0].1.is_none());
    let missing = get_user_answers(true, &vec![], &config("false"));
    assert_eq!(
        missing[0].0.headers.get("x-oauth-error").cloned(),
        Some(vec!["Session Not Found".to_string()])
    );
    let claims = obj(vec![("sub", s("u9"))]);
    let found = get_user_answers(true, &vec![Some(claims), None], &config("false"));
    assert_eq!(found.len(), 2);
    assert_eq!(found[0].1.as_ref().unwrap().sub, "u9");
    assert_eq!(found[1].0.status, StatusCode::BadRequest);
}

#[test]
fn oidc_answers() {
    let request = HttpRequest {
        method: HttpMethod::Get,
        path: "/api".to_string(),
        uri: "/api?x=1".to_string(),
        query_parameters: HeaderMap::new(),
        headers: HeaderMap::new(),
        remote_addr: "127.0.0.1".to_string(),
    };
    let claims = obj(vec![("email", s("e@x")), ("groups", Json::Array(vec![s("admins")]))]);
    match oidc_answer(request, Some(&claims), &config("false"), "st", 1000) {
        RequestMiddlewareResponse::HttpRequest(r) => {
            assert_eq!(r.headers.get("x-oidc-email").cloned(), Some(vec!["e@x".to_string()]));
            assert_eq!(r.headers.get("x-oidc-group").cloned(), Some(vec!["admins".to_string()]));
        }
        _ => panic!("the request goes on"),
    }
    let request = HttpRequest {
        method: HttpMethod::Get,
        path: "/api".to_string(),
        uri: "/api?x=1".to_string(),
        query_parameters: HeaderMap::new(),
        headers: HeaderMap::new(),
        remote_addr: "127.0.0.1".to_string(),
    };
    match oidc_answer(request, None, &config("false"), "st", 1000) {
        RequestMiddlewareResponse::HttpResponse(r) => {
            assert_eq!(r.status, StatusCode::TemporaryRedirect);
            let cookies = r.headers.get("set-cookie").cloned().unwrap();
            assert!(cookies[1].starts_with("return_url=/api?x=1"));
        }
        _ => panic!("a login redirect"),
    }
}

#[test]
fn flow_checks() {
    let with = OauthCookies { auth_state: None, return_url: None, session_id: Some("s".to_string()) };
    let without = OauthCookies { auth_state: None, return_url: None, session_id: None };
    assert!(logout_needs_hints(&config("true"), &with));
    assert!(!logout_needs_hints(&config("false"), &with));
    assert!(!logout_needs_hints(&config("true"), &without));
    let t = |s: &str| TokenResponse { access_token: s.to_string(), token_type: "Bearer".to_string(), id_token: None, expires_in: None };
    let answers = vec![(StatusCode::Forbidden, t("a")), (StatusCode::OK, t("b"))];
    let (status, body) = last_token_answer(&answers);
    assert_eq!(status, Some(StatusCode::OK));
    assert_eq!(body.unwrap().access_token, "b");
    assert!(last_token_answer(&vec![]).0.is_none());
    assert!(login_time_ok(1_700_000_000));
    assert!(!login_time_ok(253_402_300_500));
    assert!(logout_time_ok(253_402_300_800));
    assert!(!logout_time_ok(253_402_300_801));
    assert!(session_end_ok(1_700_000_000, Some(3600), 0));
    assert!(!session_end_ok(253_402_300_000, Some(3600), 0));
    assert!(!session_end_ok(0, None, 71_582_789));
}

#[test]
fn oidc_keeps_the_rest_of_the_request() {
    let mut query = HeaderMap::new();
    query.insert("q".to_string(), vec!["1".to_string()]);
    let request = HttpRequest {
        method: HttpMethod::Post,
        path: "/p".to_string(),
        uri: "/p?q=1".to_string(),
        query_parameters: query,
        headers: HeaderMap::new(),
        remote_addr: "10.1.1.1".to_string(),
    };
    match oidc_answer(request, Some(&obj(vec![])), &config("false"), "st", 1000) {
        RequestMiddlewareResponse::HttpRequest(r) => {
            assert_eq!(r.remote_addr, "10.1.1.1");
            assert_eq!(r.query_parameters.get("q").cloned(), Some(vec!["1".to_string()]));
        }
        _ => panic!("the request goes on"),
    }
    let answers = get_user_answers(true, &vec![Some(obj(vec![]))], &config("false"));
    assert_eq!(answers[0].0.version, wick_components::http::HttpVersion::Http11);
}

#[test]
fn callback_flow_in_order() {
    let cfg = config("false");
    let cookies = OauthCookies { auth_state: Some("st".to_string()), return_url: Some("/home".to_string()), session_id: None };
    let mut q = HeaderMap::new();
    q.insert("state".to_string(), vec!["st".to_string()]);
    q.insert("code".to_string(), vec!["c0de".to_string()]);
    let (state, action) = callback_step(&cfg, &cookies, &q, 1000, CallbackState::Arrived, CallbackEvent::Begin);
    assert!(matches!(state, CallbackState::TokenAsked));
    assert!(matches!(&action, CallbackAction::AskToken(c, uri) if c == "c0de" && uri == "https://app/oidc/callback"));
    let body = TokenResponse {
        access_token: "x.eyJzdWIiOiJ1MSJ9.y".to_string(),
        token_type: "Bearer".to_string(),
        id_token: None,
        expires_in: Some(600),
    };
    let (state, action) =
        callback_step(&cfg, &cookies, &q, 1000, state, CallbackEvent::TokenAnswered(Some(StatusCode::OK), Some(body)));
    assert!(matches!(&state, CallbackState::SessionIdAsked(c, Some(600)) if json_eq(c, &obj(vec![("sub", s("u1"))]))));
    assert!(matches!(action, CallbackAction::DrawSessionId));
    let (state, action) = callback_step(&cfg, &cookies, &q, 1000, state, CallbackEvent::FreshId("sess-9".to_string()));
    assert!(matches!(state, CallbackState::Answered));
    match action {
        CallbackAction::StoreAndAnswer(sid, expires_at, claims, resp) => {
            assert_eq!(sid, "sess-9");
            assert_eq!(expires_at, 1600);
            assert!(json_eq(&claims, &obj(vec![("sub", s("u1"))])));
            assert_eq!(resp.headers.get("location").cloned(), Some(vec!["/home".to_string()]));
            assert!(resp.headers.get("set-cookie").unwrap()[0].starts_with("sid=sess-9"));
        }
        _ => panic!("the session is stored"),
    }
}

#[test]
fn callback_flow_refusals() {
    let cfg = config("false");
    let cookies = OauthCookies { auth_state: Some("st".to_string()), return_url: None, session_id: None };
    let (state, action) = callback_step(&cfg, &cookies, &HeaderMap::new(), 1000, CallbackState::Arrived, CallbackEvent::Begin);
    assert!(matches!(state, CallbackState::Answered));
    assert!(matches!(&action, CallbackAction::Answer(r)
        if r.headers.get("x-oauth-error").cloned() == Some(vec!["State or code parameter does not exist".to_string()])));
    let (_, action) = callback_step(
        &cfg,
        &cookies,
        &HeaderMap::new(),
        1000,
        CallbackState::TokenAsked,
        CallbackEvent::TokenAnswered(Some(StatusCode::Forbidden), None),
    );
    assert!(matches!(&action, CallbackAction::Answer(r)
        if r.headers.get("x-oauth-error").cloned() == Some(vec!["Token endpoint returned error".to_string()])));
    let bad_id = TokenResponse {
        access_token: "x.eyJzdWIiOiJ1MSJ9.y".to_string(),
        token_type: "Bearer".to_string(),
        id_token: Some("x.!!!.y".to_string()),
        expires_in: None,
    };
    let (_, action) = callback_step(
        &cfg,
        &cookies,
        &HeaderMap::new(),
        1000,
        CallbackState::TokenAsked,
        CallbackEvent::TokenAnswered(Some(StatusCode::OK), Some(bad_id)),
    );
    assert!(matches!(action, CallbackAction::Fail(CallbackFailure::Claims(ClaimsError::InvalidBase64))));
    // An error status is refused before the tokens are read, whatever they hold.
    let unreadable = TokenResponse {
        access_token: "no-parts".to_string(),
        token_type: "Bearer".to_string(),
        id_token: Some("none".to_string()),
        expires_in: None,
    };
    let (_, action) = callback_step(
        &cfg,
        &cookies,
        &HeaderMap::new(),
        1000,
        CallbackState::TokenAsked,
        CallbackEvent::TokenAnswered(Some(StatusCode::InternalServerError), Some(unreadable)),
    );
    assert!(matches!(&action, CallbackAction::Answer(r)
        if r.headers.get("x-oauth-error").cloned() == Some(vec!["Token endpoint returned error".to_string()])));
    // The ID token's claims are the string "x", which does not merge with the access claims.
    let not_object = TokenResponse {
        access_token: "x.eyJzdWIiOiJ1MSJ9.y".to_string(),
        token_type: "Bearer".to_string(),
        id_token: Some("x.Ingi.y".to_string()),
        expires_in: None,
    };
    let (state, action) = callback_step(
        &cfg,
        &cookies,
        &HeaderMap::new(),
        1000,
        CallbackState::TokenAsked,
        CallbackEvent::TokenAnswered(Some(StatusCode::OK), Some(not_object)),
    );
    assert!(matches!(state, CallbackState::Answered));
    assert!(matches!(&action, CallbackAction::Answer(r)
        if r.headers.get("x-oauth-error").cloned() == Some(vec!["Access or ID token claims are not valid JSON".to_string()])));
    // The ID token's claims are `{` (base64 "ew"), which is not JSON: the operation fails.
    let not_json = TokenResponse {
        access_token: "x.eyJzdWIiOiJ1MSJ9.y".to_string(),
        token_type: "Bearer".to_string(),
        id_token: Some("x.ew.y".to_string()),
        expires_in: None,
    };
    let (_, action) = callback_step(
        &cfg,
        &cookies,
        &HeaderMap::new(),
        1000,
        CallbackState::TokenAsked,
        CallbackEvent::TokenAnswered(Some(StatusCode::OK), Some(not_json)),
    );
    assert!(matches!(action, CallbackAction::Fail(CallbackFailure::Json(_))));
}

#[test]
fn logout_flow_looks_up_only_what_it_needs() {
    let with_session = OauthCookies { auth_state: None, return_url: None, session_id: Some("s1".to_string()) };
    let (state, action) = logout_step(&config("false"), &with_session, 1000, LogoutState::Arrived, LogoutEvent::Begin);
    assert!(matches!(state, LogoutState::Answered));
    assert!(matches!(&action, LogoutAction::Answer(LogoutOutcome::Redirect(r))
        if r.headers.get("location").cloned() == Some(vec!["https://idp/logout".to_string()])));
    let cfg = config("true");
    let (state, action) = logout_step(&cfg, &with_session, 1000, LogoutState::Arrived, LogoutEvent::Begin);
    assert!(matches!(state, LogoutState::HintsAsked));
    assert!(matches!(&action, LogoutAction::AskHints(sid) if sid == "s1"));
    let hinted = vec![obj(vec![("login_hint", s("h1"))])];
    let (_, action) = logout_step(&cfg, &with_session, 1000, LogoutState::HintsAsked, LogoutEvent::Hints(hinted));
    assert!(matches!(&action, LogoutAction::Answer(LogoutOutcome::Redirect(r))
        if r.headers.get("location").cloned()
            == Some(vec!["https://idp/logout?post_logout_redirect_uri=https://app/&logout_hint=h1".to_string()])));
    let (state, action) = logout_step(&cfg, &with_session, 1000, LogoutState::HintsAsked, LogoutEvent::Hints(vec![]));
    assert!(matches!(state, LogoutState::IdTokensAsked(_)));
    assert!(matches!(&action, LogoutAction::AskIdTokens(sid) if sid == "s1"));
    let (_, action) = logout_step(&cfg, &with_session, 1000, state, LogoutEvent::IdTokens(vec!["t1".to_string()]));
    assert!(matches!(&action, LogoutAction::Answer(LogoutOutcome::Redirect(r))
        if r.headers.get("location").cloned()
            == Some(vec!["https://idp/logout?post_logout_redirect_uri=https://app/&id_token_hint=t1".to_string()])));
    let no_session = OauthCookies { auth_state: None, return_url: None, session_id: None };
    let (_, action) = logout_step(&cfg, &no_session, i64::MAX, LogoutState::Arrived, LogoutEvent::Begin);
    assert!(matches!(&action, LogoutAction::Answer(LogoutOutcome::Refused(r))
        if r.headers.get("x-oauth-error").cloned() == Some(vec!["Session cookie does not exist".to_string()])));
}

#[test]
fn oidc_begins_with_a_lookup_only_for_a_session() {
    let none = OauthCookies { auth_state: None, return_url: None, session_id: None };
    assert!(matches!(oidc_start(&none), OidcStart::Login));
    let some = OauthCookies { auth_state: None, return_url: None, session_id: Some("s1".to_string()) };
    assert!(matches!(oidc_start(&some), OidcStart::LookUpClaims(id) if id == "s1"));
}

#[test]
fn stored_claims_are_read() {
    assert!(matches!(stored_claims(&obj(vec![("other", s("x"))])), StoredClaims::Missing));
    match stored_claims(&obj(vec![("claims", s("{\"sub\":\"u\"}"))])) {
        StoredClaims::Claims(c) => assert!(json_eq(&c, &obj(vec![("sub", s("u"))]))),
        _ => panic!("the text holds JSON"),
    }
    match stored_claims(&obj(vec![("claims", obj(vec![("sub", s("v"))]))])) {
        StoredClaims::Claims(c) => assert!(json_eq(&c, &obj(vec![("sub", s("v"))]))),
        _ => panic!("the value is the claims"),
    }
    assert!(matches!(stored_claims(&obj(vec![("claims", s("{"))])), StoredClaims::Unreadable(_)));
}
