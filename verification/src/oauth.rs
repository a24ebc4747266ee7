use vstd::prelude::*;
use vstd::utf8::{decode_utf8, encode_utf8, valid_utf8};

use crate::codec::{
    decode_url_safe_unpadded_base64, max_cookie_time, min_cookie_time, pairs_view,
    render_cookie, rendered_cookie, split_parse_cookies, split_parsed_cookies, string_from_utf8,
    url_encode, url_encoded, url_safe_unpadded_base64_decoding,
};
use crate::json::{
    Json, JsonValue, get_spec, merge_objects, merged, json_clone, json_get, json_view, str_field, str_field_spec,
    string_list, string_list_spec,
};
use crate::http::{
    HeaderMap, HttpRequest, HttpResponse, HttpVersion, RequestMiddlewareResponse, StatusCode, single_header,
};
use crate::text::{split, split_spec, str_eq};

verus! {

/// The settings of the OAuth/OIDC middleware that its decisions read.
pub struct OauthConfig {
    pub auth_endpoint: String,
    pub logout_endpoint: String,
    pub redirect_uri: String,
    pub logout_redirect_uri: String,
    pub redirect_logout: String,
    pub client_id: String,
    pub scope: String,
    pub session_cookie_name: String,
    pub session_cookie_duration_minutes: u32,
    pub email_claim: String,
    pub groups_claim: Option<String>,
}

/// The cookies of a request that the middleware looks at.
pub struct OauthCookies {
    pub auth_state: Option<String>,
    pub return_url: Option<String>,
    pub session_id: Option<String>,
}

/// The value of cookie `name` among the pairs; the last pair with that name wins, as when the
/// pairs are collected into a map.
pub open spec fn cookie_value(pairs: Seq<(Seq<char>, Seq<char>)>, name: Seq<char>) -> Option<Seq<char>>
    decreases pairs.len(),
{
    if pairs.len() == 0 {
        None
    } else if pairs.last().0 == name {
        Some(pairs.last().1)
    } else {
        cookie_value(pairs.drop_last(), name)
    }
}

/// The cookie pairs of a request: those parsed from the first `cookie` header value.
pub open spec fn request_cookie_pairs(headers: Map<Seq<char>, Seq<Seq<char>>>) -> Seq<(Seq<char>, Seq<char>)> {
    if headers.dom().contains("cookie"@) {
        split_parsed_cookies(headers["cookie"@][0])
    } else {
        Seq::empty()
    }
}

/// An optional string as an abstract value.
pub open spec fn opt_view(o: Option<String>) -> Option<Seq<char>> {
    match o {
        Some(s) => Some(s@),
        None => None,
    }
}

fn last_value(pairs: &Vec<(String, String)>, name: &str) -> (r: Option<String>)
    ensures
        opt_view(r) == cookie_value(pairs_view(pairs@), name@),
{
    let mut i: usize = pairs.len();
    assert(pairs_view(pairs@).take(i as int) =~= pairs_view(pairs@));
    while i > 0
        invariant
            i <= pairs.len(),
            cookie_value(pairs_view(pairs@), name@) == cookie_value(pairs_view(pairs@).take(i as int), name@),
        decreases i,
    {
        proof {
            assert(pairs_view(pairs@).take(i as int).drop_last() =~= pairs_view(pairs@).take(i - 1));
        }
        if str_eq(pairs[i - 1].0.as_str(), name) {
            return Some(pairs[i - 1].1.clone());
        }
        i = i - 1;
    }
    None
}

/// Reads the `auth_state`, `return_url` and session cookies of a request.
pub fn parse_cookies_header(headers: &HeaderMap, session_cookie_name: &str) -> (out: OauthCookies)
    requires
        headers.view().dom().contains("cookie"@) ==> headers.view()["cookie"@].len() > 0,
    ensures
        opt_view(out.auth_state) == cookie_value(request_cookie_pairs(headers.view()), "auth_state"@),
        opt_view(out.return_url) == cookie_value(request_cookie_pairs(headers.view()), "return_url"@),
        opt_view(out.session_id) == cookie_value(request_cookie_pairs(headers.view()), session_cookie_name@),
{
    let pairs: Vec<(String, String)> = match headers.get("cookie") {
        Some(values) => {
            assert(values.deep_view()[0] == values@[0]@);
            split_parse_cookies(values[0].as_str())
        },
        None => {
            let empty: Vec<(String, String)> = Vec::new();
            assert(pairs_view(empty@) =~= Seq::empty());
            empty
        },
    };
    OauthCookies {
        auth_state: last_value(&pairs, "auth_state"),
        return_url: last_value(&pairs, "return_url"),
        session_id: last_value(&pairs, session_cookie_name),
    }
}

/// The response that the OAuth middleware sends when it refuses a request: HTTP/1.1, 400,
/// with the reason in the `x-oauth-error` header.
pub fn build_error_response(msg: &str) -> (out: HttpResponse)
    ensures
        out.version == HttpVersion::Http11,
        out.status == StatusCode::BadRequest,
        out.headers.view() == Map::<Seq<char>, Seq<Seq<char>>>::empty().insert(
            "x-oauth-error"@,
            seq![msg@],
        ),
{
    HttpResponse {
        version: HttpVersion::Http11,
        status: StatusCode::BadRequest,
        headers: single_header("x-oauth-error", msg),
    }
}

/// The headers of a redirect: `set-cookie` with the cookies when there is at least one, and
/// `location`.
pub open spec fn redirect_headers(location: Seq<char>, cookies: Seq<Seq<char>>) -> Map<Seq<char>, Seq<Seq<char>>> {
    if cookies.len() > 0 {
        Map::empty().insert("set-cookie"@, cookies).insert("location"@, seq![location])
    } else {
        Map::empty().insert("location"@, seq![location])
    }
}

/// The cookie texts of an optional list, none where there is no list.
pub open spec fn cookies_view(cookies: Option<Vec<String>>) -> Seq<Seq<char>> {
    match cookies {
        Some(c) => c.deep_view(),
        None => Seq::empty(),
    }
}

/// A 307 redirect to `location` that sets the given (rendered) cookies.
pub fn build_redirect_response(location: &str, cookies: Option<Vec<String>>) -> (out: HttpResponse)
    ensures
        out.version == HttpVersion::Http11,
        out.status == StatusCode::TemporaryRedirect,
        out.headers.view() == redirect_headers(location@, cookies_view(cookies)),
{
    let ghost cv = cookies_view(cookies);
    let mut headers = HeaderMap::new();
    match cookies {
        Some(c) => {
            if c.len() > 0 {
                headers.insert(String::from_str("set-cookie"), c);
            }
        },
        None => {},
    }
    let mut loc: Vec<String> = Vec::new();
    loc.push(String::from_str(location));
    assert(loc.deep_view() =~= seq![location@]);
    headers.insert(String::from_str("location"), loc);
    HttpResponse { version: HttpVersion::Http11, status: StatusCode::TemporaryRedirect, headers }
}

/// The authorization endpoint URL that a login redirect points to.
pub open spec fn auth_location(config: OauthConfig, state: Seq<char>) -> Seq<char> {
    config.auth_endpoint@ + "?response_type=code&client_id="@ + config.client_id@ + "&redirect_uri="@
        + config.redirect_uri@ + "&scope="@ + url_encoded(encode_utf8(config.scope@)) + "&state="@
        + state
}

/// The cookies a login redirect sets: the state and the return URL for five minutes, and the
/// session cookie cleared (value `expired`, expired a second ago).
pub open spec fn auth_cookies(config: OauthConfig, state: Seq<char>, return_url: Seq<char>, timestamp: i64) -> Seq<Seq<char>> {
    seq![
        rendered_cookie("auth_state"@, state, (timestamp + 300) as i64),
        rendered_cookie("return_url"@, return_url, (timestamp + 300) as i64),
        rendered_cookie(config.session_cookie_name@, "expired"@, (timestamp - 1) as i64),
    ]
}

/// The timestamps for which the login redirect's cookie expiries stay in range.
pub open spec fn auth_time_ok(timestamp: i64) -> bool {
    min_cookie_time() + 1 <= timestamp <= max_cookie_time() - 300
}

/// The redirect to the authorization endpoint that starts a login; `timestamp` is the current
/// Unix time in seconds.
pub fn build_auth_redirect_response(config: &OauthConfig, state: &str, return_url: &str, timestamp: i64) -> (out: HttpResponse)
    requires
        auth_time_ok(timestamp),
    ensures
        out.version == HttpVersion::Http11,
        out.status == StatusCode::TemporaryRedirect,
        out.headers.view() == redirect_headers(
            auth_location(*config, state@),
            auth_cookies(*config, state@, return_url@, timestamp),
        ),
{
    let expires_at_new = timestamp + 300;
    let expires_at_old = timestamp - 1;
    let mut cookies: Vec<String> = Vec::new();
    cookies.push(render_cookie("auth_state", state, expires_at_new));
    cookies.push(render_cookie("return_url", return_url, expires_at_new));
    cookies.push(render_cookie(config.session_cookie_name.as_str(), "expired", expires_at_old));
    assert(cookies.deep_view() =~= auth_cookies(*config, state@, return_url@, timestamp));
    let mut location = config.auth_endpoint.clone();
    location.append("?response_type=code&client_id=");
    location.append(config.client_id.as_str());
    location.append("&redirect_uri=");
    location.append(config.redirect_uri.as_str());
    location.append("&scope=");
    let scope = url_encode(config.scope.as_str());
    location.append(scope.as_str());
    location.append("&state=");
    location.append(state);
    build_redirect_response(location.as_str(), Some(cookies))
}

} // verus!

verus! {

/// Why reading the claims of a token fails.
#[derive(Clone, Copy, Debug, PartialEq, Eq, Structural)]
pub enum ClaimsError {
    /// The middle part of the token is not URL-safe unpadded base64.
    InvalidBase64,
    /// The decoded claims are not valid UTF-8.
    InvalidUtf8,
}

/// The claims text of a token: its second dot-separated part, decoded as URL-safe base64
/// without padding, read as UTF-8.
pub open spec fn oidc_claims_text(token: Seq<char>) -> Result<Seq<char>, ClaimsError> {
    match url_safe_unpadded_base64_decoding(split_spec(token, "."@)[1]) {
        None => Err(ClaimsError::InvalidBase64),
        Some(bytes) => if valid_utf8(bytes) {
            Ok(decode_utf8(bytes))
        } else {
            Err(ClaimsError::InvalidUtf8)
        },
    }
}

/// A token has a claims part: splitting it at dots gives at least two parts.
pub open spec fn has_claims_part(token: Seq<char>) -> bool {
    split_spec(token, "."@).len() >= 2
}

/// A claims result as an abstract value.
pub open spec fn claims_view(r: Result<String, ClaimsError>) -> Result<Seq<char>, ClaimsError> {
    match r {
        Ok(s) => Ok(s@),
        Err(e) => Err(e),
    }
}

/// The claims (JSON text) carried by a JWT.
pub fn get_oidc_claims(id_token: &str) -> (r: Result<String, ClaimsError>)
    requires
        has_claims_part(id_token@),
    ensures
        claims_view(r) == oidc_claims_text(id_token@),
{
    let parts = split(id_token, ".");
    assert(parts.deep_view()[1] == parts@[1]@);
    match decode_url_safe_unpadded_base64(parts[1].as_str()) {
        None => Err(ClaimsError::InvalidBase64),
        Some(bytes) => match string_from_utf8(bytes) {
            None => Err(ClaimsError::InvalidUtf8),
            Some(s) => Ok(s),
        },
    }
}

/// What the callback handler checks before it asks for a token: the `state` and `code`
/// parameters exist, the state cookie exists and equals the `state` parameter. `Ok` holds the
/// access code, `Err` the reason for refusing.
pub open spec fn callback_check(
    query: Map<Seq<char>, Seq<Seq<char>>>,
    auth_state: Option<Seq<char>>,
) -> Result<Seq<char>, Seq<char>> {
    if !query.dom().contains("state"@) || !query.dom().contains("code"@) {
        Err("State or code parameter does not exist"@)
    } else if auth_state.is_none() {
        Err("State cookie does not exist"@)
    } else if auth_state.unwrap() != query["state"@][0] {
        Err("State cookie and response don't match"@)
    } else {
        Ok(query["code"@][0])
    }
}

/// A result of strings as an abstract value.
pub open spec fn result_view(r: Result<String, String>) -> Result<Seq<char>, Seq<char>> {
    match r {
        Ok(s) => Ok(s@),
        Err(e) => Err(e@),
    }
}

/// The callback requests that the checks can read: where both parameters and the state cookie
/// are there, the `state` list has a first value, and where that value matches the cookie, so
/// does the `code` list. (The operation reads those first values without looking.)
pub open spec fn callback_readable(query: Map<Seq<char>, Seq<Seq<char>>>, auth_state: Option<Seq<char>>) -> bool {
    query.dom().contains("state"@) && query.dom().contains("code"@) && auth_state is Some ==> {
        &&& query["state"@].len() > 0
        &&& auth_state.unwrap() == query["state"@][0] ==> query["code"@].len() > 0
    }
}

/// Checks an OIDC callback request against the state cookie.
pub fn check_callback(query: &HeaderMap, cookies: &OauthCookies) -> (r: Result<String, String>)
    requires
        callback_readable(query.view(), opt_view(cookies.auth_state)),
    ensures
        result_view(r) == callback_check(query.view(), opt_view(cookies.auth_state)),
{
    let state = match query.get("state") {
        Some(v) => v,
        None => return Err(String::from_str("State or code parameter does not exist")),
    };
    let code = match query.get("code") {
        Some(v) => v,
        None => return Err(String::from_str("State or code parameter does not exist")),
    };
    match &cookies.auth_state {
        None => Err(String::from_str("State cookie does not exist")),
        Some(s) => {
            assert(state.deep_view()[0] == state@[0]@);
            if !str_eq(s.as_str(), state[0].as_str()) {
                Err(String::from_str("State cookie and response don't match"))
            } else {
                assert(code.deep_view()[0] == code@[0]@);
                Ok(code[0].clone())
            }
        },
    }
}

/// The body of the token endpoint's answer.
pub struct TokenResponse {
    pub access_token: String,
    pub token_type: String,
    pub id_token: Option<String>,
    pub expires_in: Option<u32>,
}

/// What the callback handler makes of the token endpoint's answer (the last status and body it
/// read, if any): `None` to go on, or the reason for refusing.
pub open spec fn token_check(status: Option<StatusCode>, body: Option<TokenResponse>) -> Option<Seq<char>> {
    if status.is_none() || body.is_none() {
        Some("Token endpoint returned error"@)
    } else if status.unwrap() != StatusCode::OK {
        Some("Token endpoint returned error"@)
    } else if body.unwrap().access_token@.len() == 0 || body.unwrap().token_type@.len() == 0 {
        Some("Token endpoint returned invalid response"@)
    } else {
        None
    }
}

/// Checks the token endpoint's answer.
pub fn check_token_response(status: Option<StatusCode>, body: Option<&TokenResponse>) -> (r: Option<String>)
    ensures
        opt_view(r) == token_check(status, match body { Some(b) => Some(*b), None => None }),
{
    match (status, body) {
        (Some(st), Some(b)) => {
            if st != StatusCode::OK {
                Some(String::from_str("Token endpoint returned error"))
            } else if b.access_token.as_str().is_empty() || b.token_type.as_str().is_empty() {
                Some(String::from_str("Token endpoint returned invalid response"))
            } else {
                None
            }
        },
        _ => Some(String::from_str("Token endpoint returned error")),
    }
}

/// The empty JSON object's text, used where a token carries no readable claims.
pub open spec fn empty_claims() -> Seq<char> {
    "{}"@
}

/// The claims texts of a token answer: the access token's claims (`{}` where they cannot be
/// read) and the ID token's claims (`{}` without an ID token; an unreadable ID token fails).
pub open spec fn token_claims_spec(body: TokenResponse) -> Result<(Seq<char>, Seq<char>), ClaimsError> {
    let access = match oidc_claims_text(body.access_token@) {
        Ok(c) => c,
        Err(_) => empty_claims(),
    };
    match body.id_token {
        Some(t) => match oidc_claims_text(t@) {
            Ok(c) => Ok((access, c)),
            Err(e) => Err(e),
        },
        None => Ok((access, empty_claims())),
    }
}

/// The tokens of an answer can be split into parts as the claims reading needs.
pub open spec fn token_parts_ok(body: TokenResponse) -> bool {
    &&& has_claims_part(body.access_token@)
    &&& (body.id_token matches Some(t) ==> has_claims_part(t@))
}

/// Reads the claims texts of the access and ID tokens.
pub fn token_claims(body: &TokenResponse) -> (r: Result<(String, String), ClaimsError>)
    requires
        token_parts_ok(*body),
    ensures
        match r {
            Ok((a, i)) => token_claims_spec(*body) == Ok::<(Seq<char>, Seq<char>), ClaimsError>((a@, i@)),
            Err(e) => token_claims_spec(*body) == Err::<(Seq<char>, Seq<char>), ClaimsError>(e),
        },
{
    let access = match get_oidc_claims(body.access_token.as_str()) {
        Ok(c) => c,
        Err(_) => String::from_str("{}"),
    };
    match &body.id_token {
        Some(t) => match get_oidc_claims(t.as_str()) {
            Ok(c) => Ok((access, c)),
            Err(e) => Err(e),
        },
        None => Ok((access, String::from_str("{}"))),
    }
}

/// How long a new session lasts, in seconds: the configured minutes when set, else the token's
/// `expires_in`, else an hour.
pub open spec fn session_seconds_spec(expires_in: Option<u32>, minutes: u32) -> int {
    if minutes > 0 {
        minutes * 60
    } else {
        match expires_in {
            Some(e) => e as int,
            None => 3600,
        }
    }
}

/// How long a new session lasts, in seconds.
pub fn session_seconds(expires_in: Option<u32>, minutes: u32) -> (r: u32)
    requires
        minutes * 60 <= u32::MAX,
    ensures
        r == session_seconds_spec(expires_in, minutes),
{
    let mut expires: u32 = 3600;
    if let Some(e) = expires_in {
        expires = e;
    }
    if minutes > 0 {
        expires = minutes * 60;
    }
    expires
}

/// Why a login fails when the claims of its tokens do not both read as JSON objects.
pub open spec fn claims_not_json_message() -> Seq<char> {
    "Access or ID token claims are not valid JSON"@
}

/// The claims of a session: the access token's claims with the ID token's laid over them;
/// where either is not an object, the error `Access or ID token claims are not valid JSON`.
pub fn merge_claims(access: &Json, id: &Json) -> (r: Result<Json, String>)
    ensures
        match merged(json_view(*access), json_view(*id)) {
            Some(m) => r matches Ok(c) && json_view(c) == m,
            None => r matches Err(msg) && msg@ == claims_not_json_message(),
        },
{
    match merge_objects(access, id) {
        Some(c) => Ok(c),
        None => Err(String::from_str("Access or ID token claims are not valid JSON")),
    }
}

/// In the claims of a session the ID token's claims win over the access token's; the access
/// token's other claims stay, and no other claim appears.
pub proof fn lemma_id_claims_win(access: Map<Seq<char>, JsonValue>, id: Map<Seq<char>, JsonValue>, k: Seq<char>)
    ensures
        merged(JsonValue::Object(access), JsonValue::Object(id)) is Some,
        ({
            let m = merged(JsonValue::Object(access), JsonValue::Object(id)).unwrap()->Object_0;
            &&& m.dom().contains(k) == (access.dom().contains(k) || id.dom().contains(k))
            &&& id.dom().contains(k) ==> m[k] == id[k]
            &&& (access.dom().contains(k) && !id.dom().contains(k)) ==> m[k] == access[k]
        }),
{
}

/// When a new session ends: the login time plus the session's length in seconds.
pub fn session_expiry(timestamp: i64, seconds: u32) -> (r: i64)
    requires
        timestamp + seconds <= i64::MAX,
    ensures
        r == timestamp + seconds,
{
    timestamp + seconds as i64
}

/// The redirect that ends a successful login: back to the `return_url` cookie (or `/`), setting
/// the session cookie to the new session id until `expires_at`.
pub fn build_session_redirect(config: &OauthConfig, return_url: &Option<String>, session_id: &str, expires_at: i64) -> (out: HttpResponse)
    requires
        min_cookie_time() <= expires_at <= max_cookie_time(),
    ensures
        out.version == HttpVersion::Http11,
        out.status == StatusCode::TemporaryRedirect,
        out.headers.view() == redirect_headers(
            match opt_view(*return_url) { Some(u) => u, None => "/"@ },
            seq![rendered_cookie(config.session_cookie_name@, session_id@, expires_at)],
        ),
{
    let mut cookies: Vec<String> = Vec::new();
    cookies.push(render_cookie(config.session_cookie_name.as_str(), session_id, expires_at));
    assert(cookies.deep_view() =~= seq![rendered_cookie(config.session_cookie_name@, session_id@, expires_at)]);
    match return_url {
        Some(u) => build_redirect_response(u.as_str(), Some(cookies)),
        None => build_redirect_response("/", Some(cookies)),
    }
}

} // verus!

verus! {

/// The login hint that one answer of the login-hint lookup carries: its `login_hint` string,
/// or the empty string.
pub open spec fn login_hint_of(v: JsonValue) -> Seq<char> {
    str_field_spec(v, "login_hint"@)
}

/// The first non-empty login hint among the answers, if any.
pub open spec fn first_hint(hints: Seq<JsonValue>) -> Option<Seq<char>>
    decreases hints.len(),
{
    if hints.len() == 0 {
        None
    } else if login_hint_of(hints[0]).len() > 0 {
        Some(login_hint_of(hints[0]))
    } else {
        first_hint(hints.drop_first())
    }
}

/// `&id_token_hint=<token>` for each ID token, in order.
pub open spec fn id_token_hints(tokens: Seq<Seq<char>>) -> Seq<char>
    decreases tokens.len(),
{
    if tokens.len() == 0 {
        Seq::empty()
    } else {
        id_token_hints(tokens.drop_last()) + "&id_token_hint="@ + tokens.last()
    }
}

/// Where a logout redirects: the logout endpoint; when `redirect_logout` is `true`, with the
/// post-logout redirect URI and either the first login hint or all ID token hints.
pub open spec fn logout_location_spec(config: OauthConfig, hints: Seq<JsonValue>, id_tokens: Seq<Seq<char>>) -> Seq<char> {
    if config.redirect_logout@ != "true"@ {
        config.logout_endpoint@
    } else {
        let base = config.logout_endpoint@ + "?post_logout_redirect_uri="@ + config.logout_redirect_uri@;
        match first_hint(hints) {
            Some(h) => base + "&logout_hint="@ + h,
            None => base + id_token_hints(id_tokens),
        }
    }
}

/// The views of a list of JSON values.
pub open spec fn values_view(v: Seq<Json>) -> Seq<JsonValue> {
    Seq::new(v.len(), |i: int| json_view(v[i]))
}

fn first_hint_exec(hints: &Vec<Json>) -> (r: Option<String>)
    ensures
        opt_view(r) == first_hint(values_view(hints@)),
{
    let mut i: usize = 0;
    assert(values_view(hints@).skip(0) =~= values_view(hints@));
    while i < hints.len()
        invariant
            i <= hints.len(),
            first_hint(values_view(hints@)) == first_hint(values_view(hints@).skip(i as int)),
        decreases hints.len() - i,
    {
        let h = str_field(&hints[i], "login_hint");
        proof {
            let s = values_view(hints@).skip(i as int);
            assert(s[0] == json_view(hints@[i as int]));
            assert(s.drop_first() =~= values_view(hints@).skip(i + 1));
        }
        if !h.as_str().is_empty() {
            return Some(h);
        }
        i = i + 1;
    }
    assert(values_view(hints@).skip(i as int) =~= Seq::empty());
    None
}

/// Whether the logout still needs the session's ID tokens: it redirects with hints and found
/// no non-empty login hint.
pub fn logout_needs_id_tokens(config: &OauthConfig, hints: &Vec<Json>) -> (r: bool)
    ensures
        r == (config.redirect_logout@ == "true"@ && first_hint(values_view(hints@)).is_none()),
{
    str_eq(config.redirect_logout.as_str(), "true") && first_hint_exec(hints).is_none()
}

/// Whether a logout looks up the session's login hints: it has a session cookie and
/// `redirect_logout` is `true`.
pub fn logout_needs_hints(config: &OauthConfig, cookies: &OauthCookies) -> (r: bool)
    ensures
        r == (cookies.session_id is Some && config.redirect_logout@ == "true"@),
{
    cookies.session_id.is_some() && str_eq(config.redirect_logout.as_str(), "true")
}

/// Where a logout redirects, given the answers of the login-hint lookup and the session's ID
/// tokens (read only when no login hint is found).
pub fn logout_location(config: &OauthConfig, hints: &Vec<Json>, id_tokens: &Vec<String>) -> (out: String)
    ensures
        out@ == logout_location_spec(*config, values_view(hints@), id_tokens.deep_view()),
{
    if !str_eq(config.redirect_logout.as_str(), "true") {
        return config.logout_endpoint.clone();
    }
    let mut location = config.logout_endpoint.clone();
    location.append("?post_logout_redirect_uri=");
    location.append(config.logout_redirect_uri.as_str());
    match first_hint_exec(hints) {
        Some(h) => {
            location.append("&logout_hint=");
            location.append(h.as_str());
            location
        },
        None => {
            let ghost base = location@;
            let mut i: usize = 0;
            while i < id_tokens.len()
                invariant
                    i <= id_tokens.len(),
                    location@ == base + id_token_hints(id_tokens.deep_view().take(i as int)),
                decreases id_tokens.len() - i,
            {
                location.append("&id_token_hint=");
                location.append(id_tokens[i].as_str());
                proof {
                    let t = id_tokens.deep_view().take(i + 1);
                    assert(t.drop_last() =~= id_tokens.deep_view().take(i as int));
                }
                i = i + 1;
            }
            assert(id_tokens.deep_view().take(id_tokens.len() as int) =~= id_tokens.deep_view());
            location
        },
    }
}

/// The outcome of a logout request.
pub enum LogoutOutcome {
    /// There is no session cookie: the request is refused and the middleware goes on.
    Refused(HttpResponse),
    /// The logout redirect; the middleware then ends its stream.
    Redirect(HttpResponse),
}

/// Answers a logout request: without a session cookie, a refusal; else a redirect to the
/// logout location that clears the session cookie (value `expired`, expired a second ago).
pub fn logout_response(config: &OauthConfig, cookies: &OauthCookies, timestamp: i64, hints: &Vec<Json>, id_tokens: &Vec<String>) -> (out: LogoutOutcome)
    requires
        cookies.session_id is Some ==> min_cookie_time() + 1 <= timestamp <= max_cookie_time() + 1,
    ensures
        match out {
            LogoutOutcome::Refused(r) => cookies.session_id.is_none()
                && r.status == StatusCode::BadRequest && r.version == HttpVersion::Http11
                && r.headers.view() == Map::<Seq<char>, Seq<Seq<char>>>::empty().insert("x-oauth-error"@, seq!["Session cookie does not exist"@]),
            LogoutOutcome::Redirect(r) => cookies.session_id.is_some()
                && r.status == StatusCode::TemporaryRedirect && r.version == HttpVersion::Http11
                && r.headers.view() == redirect_headers(
                    logout_location_spec(*config, values_view(hints@), id_tokens.deep_view()),
                    seq![rendered_cookie(config.session_cookie_name@, "expired"@, (timestamp - 1) as i64)],
                ),
        },
{
    if cookies.session_id.is_none() {
        return LogoutOutcome::Refused(build_error_response("Session cookie does not exist"));
    }
    let mut resp_cookies: Vec<String> = Vec::new();
    resp_cookies.push(render_cookie(config.session_cookie_name.as_str(), "expired", timestamp - 1));
    assert(resp_cookies.deep_view() =~= seq![rendered_cookie(config.session_cookie_name@, "expired"@, (timestamp - 1) as i64)]);
    let location = logout_location(config, hints, id_tokens);
    LogoutOutcome::Redirect(build_redirect_response(location.as_str(), Some(resp_cookies)))
}

/// The three kinds of request the auth operation tells apart by path.
#[derive(Clone, Copy, Debug, PartialEq, Eq, Structural)]
pub enum OauthRoute {
    Callback,
    Logout,
    Other,
}

/// The route of a request path.
pub fn route(path: &str) -> (r: OauthRoute)
    ensures
        r == (if path@ == "/oidc/callback"@ {
            OauthRoute::Callback
        } else if path@ == "/oidc/logout"@ {
            OauthRoute::Logout
        } else {
            OauthRoute::Other
        }),
{
    if str_eq(path, "/oidc/callback") {
        OauthRoute::Callback
    } else if str_eq(path, "/oidc/logout") {
        OauthRoute::Logout
    } else {
        OauthRoute::Other
    }
}

/// A stored session as the session lookup returns it.
pub struct SessionDetails {
    pub access_token: String,
    pub expires_at: i64,
}

/// One answer of the auth operation to a request on another path.
#[derive(Clone, Copy, Debug, PartialEq, Eq, Structural)]
pub enum SessionStep {
    /// Send the request on.
    Forward,
    /// Redirect to the login (with a fresh state).
    Login,
}

/// The answer for one stored session: a login when it has no access token or has expired.
pub open spec fn session_step(s: SessionDetails, timestamp: i64) -> SessionStep {
    if s.access_token@.len() == 0 || s.expires_at < timestamp {
        SessionStep::Login
    } else {
        SessionStep::Forward
    }
}

/// The answers to a request on another path: a login without a session cookie; else one answer
/// per stored session found, followed by a login. The trailing login is sent even after a
/// valid session was forwarded: the operation's code does so, though its comment means it for
/// a session that does not exist.
pub open spec fn session_steps_spec(has_session: bool, sessions: Seq<SessionDetails>, timestamp: i64) -> Seq<SessionStep> {
    if !has_session {
        seq![SessionStep::Login]
    } else {
        Seq::new(sessions.len(), |i: int| session_step(sessions[i], timestamp)).push(SessionStep::Login)
    }
}

/// The answers to a request on another path.
pub fn session_steps(has_session: bool, sessions: &Vec<SessionDetails>, timestamp: i64) -> (out: Vec<SessionStep>)
    ensures
        out@ == session_steps_spec(has_session, sessions@, timestamp),
{
    let mut out: Vec<SessionStep> = Vec::new();
    if !has_session {
        out.push(SessionStep::Login);
        assert(out@ =~= seq![SessionStep::Login]);
        return out;
    }
    let mut i: usize = 0;
    while i < sessions.len()
        invariant
            i <= sessions.len(),
            out@ =~= Seq::new(i as nat, |k: int| session_step(sessions@[k], timestamp)),
        decreases sessions.len() - i,
    {
        let s = &sessions[i];
        if s.access_token.as_str().is_empty() || s.expires_at < timestamp {
            out.push(SessionStep::Login);
        } else {
            out.push(SessionStep::Forward);
        }
        i = i + 1;
    }
    out.push(SessionStep::Login);
    out
}

} // verus!

verus! {

/// The `claims` member of a stored-claims answer: missing, a JSON text still to be parsed,
/// or a JSON value.
pub enum ClaimsField {
    Missing,
    Text(String),
    Value(Json),
}

/// Reads the `claims` member of a stored-claims answer.
pub fn claims_field(response: &Json) -> (out: ClaimsField)
    ensures
        match out {
            ClaimsField::Missing => get_spec(json_view(*response), "claims"@).is_none(),
            ClaimsField::Text(t) => get_spec(json_view(*response), "claims"@) == Some(JsonValue::String(t@)),
            ClaimsField::Value(v) => get_spec(json_view(*response), "claims"@) == Some(json_view(v))
                && !(json_view(v) is String),
        },
{
    match json_get(response, "claims") {
        None => ClaimsField::Missing,
        Some(Json::String(s)) => ClaimsField::Text(s.clone()),
        Some(other) => ClaimsField::Value(json_clone(other)),
    }
}

/// The groups claim, when configured and present, is a list of strings (the middleware cannot
/// read it otherwise).
pub open spec fn groups_ok(claims: JsonValue, groups_claim: Option<String>) -> bool {
    match groups_claim {
        Some(g) => match get_spec(claims, g@) {
            Some(x) => string_list_spec(x).is_some(),
            None => true,
        },
        None => true,
    }
}

/// The groups of the claims: the configured groups claim's strings, or none.
pub open spec fn groups_spec(claims: JsonValue, groups_claim: Option<String>) -> Seq<Seq<char>> {
    match groups_claim {
        Some(g) => match get_spec(claims, g@) {
            Some(x) => string_list_spec(x).unwrap(),
            None => Seq::empty(),
        },
        None => Seq::empty(),
    }
}

/// The groups of the claims.
pub fn claim_groups(claims: &Json, groups_claim: &Option<String>) -> (out: Vec<String>)
    requires
        groups_ok(json_view(*claims), *groups_claim),
    ensures
        out.deep_view() == groups_spec(json_view(*claims), *groups_claim),
{
    match groups_claim {
        Some(g) => match json_get(claims, g.as_str()) {
            Some(x) => match string_list(x) {
                Some(l) => l,
                None => Vec::new(),
            },
            None => {
                let v: Vec<String> = Vec::new();
                assert(v.deep_view() =~= Seq::empty());
                v
            },
        },
        None => {
            let v: Vec<String> = Vec::new();
            assert(v.deep_view() =~= Seq::empty());
            v
        },
    }
}

/// The request sent on by the oidc operation: its headers gain `x-oidc-email` (the email claim)
/// and `x-oidc-group` (the groups).
pub fn with_oidc_headers(request: HttpRequest, claims: &Json, config: &OauthConfig) -> (out: HttpRequest)
    requires
        groups_ok(json_view(*claims), config.groups_claim),
    ensures
        out.method == request.method,
        out.path == request.path,
        out.uri == request.uri,
        out.query_parameters == request.query_parameters,
        out.remote_addr == request.remote_addr,
        out.headers.view() == request.headers.view().insert(
            "x-oidc-email"@,
            seq![str_field_spec(json_view(*claims), config.email_claim@)],
        ).insert("x-oidc-group"@, groups_spec(json_view(*claims), config.groups_claim)),
{
    let email = str_field(claims, config.email_claim.as_str());
    let groups = claim_groups(claims, &config.groups_claim);
    let mut request = request;
    let mut emails: Vec<String> = Vec::new();
    emails.push(email);
    assert(emails.deep_view() =~= seq![str_field_spec(json_view(*claims), config.email_claim@)]);
    request.headers.insert(String::from_str("x-oidc-email"), emails);
    request.headers.insert(String::from_str("x-oidc-group"), groups);
    request
}

/// The user that the get_user operation describes.
pub struct UserInfo {
    pub sub: String,
    pub email: String,
    pub groups: Vec<String>,
}

/// The user described by the claims: `sub`, the configured email claim, and the groups.
pub fn user_info(claims: &Json, config: &OauthConfig) -> (out: UserInfo)
    requires
        groups_ok(json_view(*claims), config.groups_claim),
    ensures
        out.sub@ == str_field_spec(json_view(*claims), "sub"@),
        out.email@ == str_field_spec(json_view(*claims), config.email_claim@),
        out.groups.deep_view() == groups_spec(json_view(*claims), config.groups_claim),
{
    UserInfo {
        sub: str_field(claims, "sub"),
        email: str_field(claims, config.email_claim.as_str()),
        groups: claim_groups(claims, &config.groups_claim),
    }
}

/// The user description sent beside an error: all fields empty.
pub fn empty_user_info() -> (out: UserInfo)
    ensures
        out.sub@ == Seq::<char>::empty(),
        out.email@ == Seq::<char>::empty(),
        out.groups@.len() == 0,
{
    UserInfo { sub: String::new(), email: String::new(), groups: Vec::new() }
}

/// The get_user answer for one stored-claims answer (its claims parsed, `None` where the
/// `claims` member is missing): a 200 with the user, or a 400 `Invalid OIDC Claims` with an
/// empty user.
pub fn user_answer(claims: Option<&Json>, config: &OauthConfig) -> (out: (HttpResponse, UserInfo))
    requires
        claims matches Some(c) ==> groups_ok(json_view(*c), config.groups_claim),
    ensures
        out.0.version == HttpVersion::Http11,
        match claims {
            Some(c) => {
                &&& out.0.status == StatusCode::OK
                &&& out.0.headers.view() == Map::<Seq<char>, Seq<Seq<char>>>::empty()
                &&& out.1.sub@ == str_field_spec(json_view(*c), "sub"@)
                &&& out.1.email@ == str_field_spec(json_view(*c), config.email_claim@)
                &&& out.1.groups.deep_view() == groups_spec(json_view(*c), config.groups_claim)
            },
            None => {
                &&& out.0.status == StatusCode::BadRequest
                &&& out.0.headers.view() == Map::<Seq<char>, Seq<Seq<char>>>::empty().insert("x-oauth-error"@, seq!["Invalid OIDC Claims"@])
                &&& out.1.sub@.len() == 0 && out.1.email@.len() == 0 && out.1.groups@.len() == 0
            },
        },
{
    match claims {
        Some(c) => (
            HttpResponse { version: HttpVersion::Http11, status: StatusCode::OK, headers: HeaderMap::new() },
            user_info(c, config),
        ),
        None => (build_error_response("Invalid OIDC Claims"), empty_user_info()),
    }
}

} // verus!

verus! {

/// Whether a response is the middleware's refusal with the given reason: HTTP/1.1, 400, the
/// reason in `x-oauth-error`.
pub open spec fn is_refusal(r: HttpResponse, reason: Seq<char>) -> bool {
    &&& r.version == HttpVersion::Http11
    &&& r.status == StatusCode::BadRequest
    &&& r.headers.view() == Map::<Seq<char>, Seq<Seq<char>>>::empty().insert("x-oauth-error"@, seq![reason])
}

/// The callback's first step: the access code to trade for a token, or the refusal that
/// answers the request.
pub fn callback_start(query: &HeaderMap, cookies: &OauthCookies) -> (r: Result<String, HttpResponse>)
    requires
        callback_readable(query.view(), opt_view(cookies.auth_state)),
    ensures
        match callback_check(query.view(), opt_view(cookies.auth_state)) {
            Ok(code) => r matches Ok(c) && c@ == code,
            Err(reason) => r matches Err(resp) && is_refusal(resp, reason),
        },
{
    match check_callback(query, cookies) {
        Ok(code) => Ok(code),
        Err(reason) => Err(build_error_response(reason.as_str())),
    }
}

/// The token endpoint's answer that the callback judges: the last of those it read (status
/// and body), or none.
pub fn last_token_answer(answers: &Vec<(StatusCode, TokenResponse)>) -> (r: (Option<StatusCode>, Option<&TokenResponse>))
    ensures
        answers.len() == 0 ==> r.0 is None && r.1 is None,
        answers.len() > 0 ==> r.0 == Some(answers@[answers.len() - 1].0) && r.1 == Some(&answers@[answers.len() - 1].1),
{
    if answers.len() == 0 {
        (None, None)
    } else {
        let last = &answers[answers.len() - 1];
        (Some(last.0), Some(&last.1))
    }
}

/// The callback's second step, once the token endpoint answered: the refusal where its answer
/// cannot be used, `None` to go on.
pub fn callback_token_refusal(status: Option<StatusCode>, body: Option<&TokenResponse>) -> (r: Option<HttpResponse>)
    ensures
        match token_check(status, match body { Some(b) => Some(*b), None => None }) {
            None => r is None,
            Some(reason) => r matches Some(resp) && is_refusal(resp, reason),
        },
{
    match check_token_response(status, body) {
        None => None,
        Some(reason) => Some(build_error_response(reason.as_str())),
    }
}

/// The callback's last step, once the tokens' claims are parsed: the session's claims (the ID
/// token's over the access token's), when the session ends, and the redirect back to the
/// `return_url` cookie (or `/`) that sets the session cookie; where the claims are not both
/// objects, the refusal `Access or ID token claims are not valid JSON`.
pub fn callback_finish(
    config: &OauthConfig,
    cookies: &OauthCookies,
    access: &Json,
    id: &Json,
    session_id: &str,
    expires_in: Option<u32>,
    timestamp: i64,
) -> (r: Result<(Json, i64, HttpResponse), HttpResponse>)
    requires
        config.session_cookie_duration_minutes * 60 <= u32::MAX,
        min_cookie_time() <= timestamp + session_seconds_spec(expires_in, config.session_cookie_duration_minutes)
            <= max_cookie_time(),
    ensures
        match merged(json_view(*access), json_view(*id)) {
            None => r matches Err(resp) && is_refusal(resp, claims_not_json_message()),
            Some(m) => r matches Ok((claims, expires_at, resp)) && {
                &&& json_view(claims) == m
                &&& expires_at == timestamp + session_seconds_spec(expires_in, config.session_cookie_duration_minutes)
                &&& resp.version == HttpVersion::Http11
                &&& resp.status == StatusCode::TemporaryRedirect
                &&& resp.headers.view() == redirect_headers(
                    match opt_view(cookies.return_url) { Some(u) => u, None => "/"@ },
                    seq![rendered_cookie(config.session_cookie_name@, session_id@, expires_at)],
                )
            },
        },
{
    let claims = match merge_claims(access, id) {
        Ok(c) => c,
        Err(reason) => {
            return Err(build_error_response(reason.as_str()));
        },
    };
    let seconds = session_seconds(expires_in, config.session_cookie_duration_minutes);
    let expires_at = session_expiry(timestamp, seconds);
    let resp = build_session_redirect(config, &cookies.return_url, session_id, expires_at);
    Ok((claims, expires_at, resp))
}

/// The answers of the get_user operation to one request: without a session cookie, the refusal
/// `Session Cookie does not exist` alone; else one answer per stored-claims answer (its claims
/// parsed, `None` where the `claims` member is missing), or, where there was none, the refusal
/// `Session Not Found` with an empty user.
pub fn get_user_answers(has_session: bool, answers: &Vec<Option<Json>>, config: &OauthConfig) -> (out: Vec<(HttpResponse, Option<UserInfo>)>)
    requires
        forall|i: int| 0 <= i < answers.len() ==> (#[trigger] answers@[i] matches Some(c) ==> groups_ok(json_view(c), config.groups_claim)),
    ensures
        !has_session ==> out.len() == 1 && is_refusal(out@[0].0, "Session Cookie does not exist"@) && out@[0].1 is None,
        has_session && answers.len() == 0 ==> out.len() == 1 && is_refusal(out@[0].0, "Session Not Found"@)
            && (out@[0].1 matches Some(u) && u.sub@.len() == 0 && u.email@.len() == 0 && u.groups@.len() == 0),
        has_session && answers.len() > 0 ==> out.len() == answers.len() && forall|i: int| 0 <= i < answers.len() ==> {
            let (resp, user) = #[trigger] out@[i];
            &&& user is Some
            &&& match answers@[i] {
                Some(c) => {
                    &&& resp.version == HttpVersion::Http11
                    &&& resp.status == StatusCode::OK
                    &&& resp.headers.view() == Map::<Seq<char>, Seq<Seq<char>>>::empty()
                    &&& user.unwrap().sub@ == str_field_spec(json_view(c), "sub"@)
                    &&& user.unwrap().email@ == str_field_spec(json_view(c), config.email_claim@)
                    &&& user.unwrap().groups.deep_view() == groups_spec(json_view(c), config.groups_claim)
                },
                None => is_refusal(resp, "Invalid OIDC Claims"@),
            }
        },
{
    let mut out: Vec<(HttpResponse, Option<UserInfo>)> = Vec::new();
    if !has_session {
        out.push((build_error_response("Session Cookie does not exist"), None));
        return out;
    }
    if answers.len() == 0 {
        out.push((build_error_response("Session Not Found"), Some(empty_user_info())));
        return out;
    }
    let mut i: usize = 0;
    while i < answers.len()
        invariant
            has_session,
            i <= answers.len(),
            out.len() == i,
            forall|k: int| 0 <= k < answers.len() ==> (#[trigger] answers@[k] matches Some(c) ==> groups_ok(json_view(c), config.groups_claim)),
            forall|k: int| 0 <= k < i ==> {
                let (resp, user) = #[trigger] out@[k];
                &&& user is Some
                &&& match answers@[k] {
                    Some(c) => {
                        &&& resp.version == HttpVersion::Http11
                        &&& resp.status == StatusCode::OK
                        &&& resp.headers.view() == Map::<Seq<char>, Seq<Seq<char>>>::empty()
                        &&& user.unwrap().sub@ == str_field_spec(json_view(c), "sub"@)
                        &&& user.unwrap().email@ == str_field_spec(json_view(c), config.email_claim@)
                        &&& user.unwrap().groups.deep_view() == groups_spec(json_view(c), config.groups_claim)
                    },
                    None => is_refusal(resp, "Invalid OIDC Claims"@),
                }
            },
        decreases answers.len() - i,
    {
        let claims: Option<&Json> = match &answers[i] {
            Some(c) => Some(c),
            None => None,
        };
        let (resp, user) = user_answer(claims, config);
        out.push((resp, Some(user)));
        i = i + 1;
    }
    out
}

/// The oidc operation's answer for one stored-claims answer (its claims parsed, `None` where
/// the `claims` member is missing, and then also where there is no session cookie): the request
/// sent on with the `x-oidc-email` and `x-oidc-group` headers, or a login redirect with the
/// fresh `state`.
pub fn oidc_answer(request: HttpRequest, claims: Option<&Json>, config: &OauthConfig, state: &str, timestamp: i64) -> (out: RequestMiddlewareResponse)
    requires
        claims matches Some(c) ==> groups_ok(json_view(*c), config.groups_claim),
        claims is None ==> auth_time_ok(timestamp),
    ensures
        match claims {
            Some(c) => out matches RequestMiddlewareResponse::HttpRequest(r) && {
                &&& r.method == request.method
                &&& r.path == request.path
                &&& r.uri == request.uri
                &&& r.query_parameters == request.query_parameters
                &&& r.remote_addr == request.remote_addr
                &&& r.headers.view() == request.headers.view().insert(
                    "x-oidc-email"@,
                    seq![str_field_spec(json_view(*c), config.email_claim@)],
                ).insert("x-oidc-group"@, groups_spec(json_view(*c), config.groups_claim))
            },
            None => out matches RequestMiddlewareResponse::HttpResponse(resp) && {
                &&& resp.version == HttpVersion::Http11
                &&& resp.status == StatusCode::TemporaryRedirect
                &&& resp.headers.view() == redirect_headers(
                    auth_location(*config, state@),
                    auth_cookies(*config, state@, request.uri@, timestamp),
                )
            },
        },
{
    match claims {
        Some(c) => RequestMiddlewareResponse::HttpRequest(with_oidc_headers(request, c, config)),
        None => RequestMiddlewareResponse::HttpResponse(
            build_auth_redirect_response(config, state, request.uri.as_str(), timestamp),
        ),
    }
}

/// Whether a login redirect can be built at this time: its cookies' expiries (five minutes on,
/// a second back) stay in the range that the cookie crate's dates hold.
pub fn login_time_ok(timestamp: i64) -> (r: bool)
    ensures
        r == auth_time_ok(timestamp),
{
    -377705116799 <= timestamp && timestamp <= 253402300499
}

/// Whether a logout can clear the session cookie at this time: a second back stays in the
/// range that the cookie crate's dates hold.
pub fn logout_time_ok(timestamp: i64) -> (r: bool)
    ensures
        r == (min_cookie_time() + 1 <= timestamp <= max_cookie_time() + 1),
{
    -377705116799 <= timestamp && timestamp <= 253402300800
}

/// Whether a login can end in a session cookie: the configured minutes fit in seconds, and the
/// session's end stays in the range that the cookie crate's dates hold.
pub fn session_end_ok(timestamp: i64, expires_in: Option<u32>, minutes: u32) -> (r: bool)
    ensures
        r == (minutes * 60 <= u32::MAX && min_cookie_time() <= timestamp + session_seconds_spec(expires_in, minutes)
            <= max_cookie_time()),
{
    if minutes > 71582788 {
        return false;
    }
    let seconds = session_seconds(expires_in, minutes);
    -377705116800 - (seconds as i64) <= timestamp && timestamp <= 253402300799 - (seconds as i64)
}

} // verus!
