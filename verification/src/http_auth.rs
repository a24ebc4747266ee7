use vstd::prelude::*;
use vstd::utf8::{decode_utf8, valid_utf8};

use crate::codec::{decode_standard_base64, standard_base64_decoding, string_from_utf8};
use crate::http::{
    HeaderMap, HttpRequest, HttpResponse, HttpVersion, RequestMiddlewareResponse, StatusCode,
    single_header,
};
use crate::text::{split, split_spec, str_eq};

verus! {

/// The response that the basic-auth middleware sends back when it refuses a request: HTTP/1.1,
/// 400, with the reason in the `x-auth-error` header.
pub fn build_error_response(msg: &str) -> (out: HttpResponse)
    ensures
        out.version == HttpVersion::Http11,
        out.status == StatusCode::BadRequest,
        out.headers.view() == Map::<Seq<char>, Seq<Seq<char>>>::empty().insert(
            "x-auth-error"@,
            seq![msg@],
        ),
{
    HttpResponse {
        version: HttpVersion::Http11,
        status: StatusCode::BadRequest,
        headers: single_header("x-auth-error", msg),
    }
}

/// Why the basic-auth operation stops with an error (the stream ends in a failure).
#[derive(Clone, Copy, Debug, PartialEq, Eq, Structural)]
pub enum BasicAuthError {
    /// The credentials after `Basic ` are not valid base64.
    InvalidBase64,
    /// The decoded credentials are not valid UTF-8.
    InvalidUtf8,
}

/// What the middleware does with a request: let it through, or answer it with an error
/// response that carries the reason.
#[derive(Debug, PartialEq, Eq)]
pub enum BasicAuthVerdict {
    Accept,
    Refuse(String),
}

/// The verdict as an abstract value: `None` lets the request through, `Some(reason)` refuses it.
pub open spec fn verdict_view(v: BasicAuthVerdict) -> Option<Seq<char>> {
    match v {
        BasicAuthVerdict::Accept => None,
        BasicAuthVerdict::Refuse(r) => Some(r@),
    }
}

/// A judgement as an abstract value.
pub open spec fn outcome_view(r: Result<BasicAuthVerdict, BasicAuthError>) -> Result<Option<Seq<char>>, BasicAuthError> {
    match r {
        Ok(v) => Ok(verdict_view(v)),
        Err(e) => Err(e),
    }
}

/// Optional bytes as an abstract value.
pub open spec fn bytes_view(b: Option<Vec<u8>>) -> Option<Seq<u8>> {
    match b {
        Some(v) => Some(v@),
        None => None,
    }
}

/// The outcome for decoded credentials: they must be valid UTF-8 and equal `user:password`.
pub open spec fn credentials_outcome(
    decoded: Option<Seq<u8>>,
    username: Seq<char>,
    password: Seq<char>,
) -> Result<Option<Seq<char>>, BasicAuthError> {
    match decoded {
        None => Err(BasicAuthError::InvalidBase64),
        Some(bytes) => if !valid_utf8(bytes) {
            Err(BasicAuthError::InvalidUtf8)
        } else if decode_utf8(bytes) == username + ":"@ + password {
            Ok(None)
        } else {
            Ok(Some("invalid credentials"@))
        },
    }
}

/// The outcome for a request's headers: the first `authorization` value must split on spaces
/// into exactly `Basic` and base64 credentials that decode to `user:password`.
pub open spec fn basic_auth_outcome(
    headers: Map<Seq<char>, Seq<Seq<char>>>,
    username: Seq<char>,
    password: Seq<char>,
) -> Result<Option<Seq<char>>, BasicAuthError> {
    if headers.dom().contains("authorization"@) && headers["authorization"@].len() > 0 {
        let parts = split_spec(headers["authorization"@][0], " "@);
        if parts.len() == 2 {
            if parts[0] == "Basic"@ {
                credentials_outcome(standard_base64_decoding(parts[1]), username, password)
            } else {
                Ok(Some("authorization type not supported"@))
            }
        } else {
            Ok(Some("invalid authorization header"@))
        }
    } else {
        Ok(Some("missing authorization header"@))
    }
}

/// Judges decoded credentials (`None` where base64 decoding failed) against the configured
/// user and password.
pub fn check_credentials(decoded: Option<Vec<u8>>, username: &str, password: &str) -> (r: Result<
    BasicAuthVerdict,
    BasicAuthError,
>)
    ensures
        outcome_view(r) == credentials_outcome(
            bytes_view(decoded),
            username@,
            password@,
        ),
{
    let bytes = match decoded {
        None => return Err(BasicAuthError::InvalidBase64),
        Some(b) => b,
    };
    let credentials = match string_from_utf8(bytes) {
        None => return Err(BasicAuthError::InvalidUtf8),
        Some(s) => s,
    };
    let mut expected = String::from_str(username);
    expected.append(":");
    expected.append(password);
    if str_eq(credentials.as_str(), expected.as_str()) {
        Ok(BasicAuthVerdict::Accept)
    } else {
        Ok(BasicAuthVerdict::Refuse(String::from_str("invalid credentials")))
    }
}

/// Judges a request's headers against the configured user and password.
pub fn check_basic_auth(headers: &HeaderMap, username: &str, password: &str) -> (r: Result<
    BasicAuthVerdict,
    BasicAuthError,
>)
    ensures
        outcome_view(r) == basic_auth_outcome(
            headers.view(),
            username@,
            password@,
        ),
{
    if let Some(values) = headers.get("authorization") {
        if values.len() > 0 {
            let parts = split(values[0].as_str(), " ");
            assert(values.deep_view()[0] == values@[0]@);
            if parts.len() == 2 {
                assert(parts.deep_view()[0] == parts@[0]@);
                assert(parts.deep_view()[1] == parts@[1]@);
                if str_eq(parts[0].as_str(), "Basic") {
                    let decoded = decode_standard_base64(parts[1].as_str());
                    return check_credentials(decoded, username, password);
                } else {
                    return Ok(BasicAuthVerdict::Refuse(String::from_str("authorization type not supported")));
                }
            } else {
                return Ok(BasicAuthVerdict::Refuse(String::from_str("invalid authorization header")));
            }
        }
    }
    Ok(BasicAuthVerdict::Refuse(String::from_str("missing authorization header")))
}

/// What the basic-auth middleware answers for one request: the request itself when the
/// credentials match, else a 400 response whose `x-auth-error` header gives the reason.
pub fn basic(request: HttpRequest, username: &str, password: &str) -> (r: Result<
    RequestMiddlewareResponse,
    BasicAuthError,
>)
    ensures
        match basic_auth_outcome(request.headers.view(), username@, password@) {
            Err(e) => r == Err::<RequestMiddlewareResponse, BasicAuthError>(e),
            Ok(None) => r matches Ok(RequestMiddlewareResponse::HttpRequest(req)) && req == request,
            Ok(Some(reason)) => r matches Ok(RequestMiddlewareResponse::HttpResponse(resp)) && {
                &&& resp.version == HttpVersion::Http11
                &&& resp.status == StatusCode::BadRequest
                &&& resp.headers.view() == Map::<Seq<char>, Seq<Seq<char>>>::empty().insert(
                    "x-auth-error"@,
                    seq![reason],
                )
            },
        },
{
    match check_basic_auth(&request.headers, username, password) {
        Err(e) => Err(e),
        Ok(BasicAuthVerdict::Accept) => Ok(RequestMiddlewareResponse::HttpRequest(request)),
        Ok(BasicAuthVerdict::Refuse(reason)) => Ok(
            RequestMiddlewareResponse::HttpResponse(build_error_response(reason.as_str())),
        ),
    }
}

} // verus!
