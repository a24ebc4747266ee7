use wick_components::assets::{asset_path, content_type, extension, serve_response, Asset};
use wick_components::client_ip::get_ip;
use wick_components::cookies::{get, CookieError};
use wick_components::http::{
    HeaderMap, HttpMethod, HttpRequest, HttpVersion, RequestMiddlewareResponse, StatusCode, Strings,
};
use wick_components::http_auth::{basic, check_basic_auth, BasicAuthError, BasicAuthVerdict};
use wick_components::http_headers::process_headers;

fn values(h: &HeaderMap, name: &str) -> Option<Vec<String>> {
    h.get(name).cloned()
}

fn headers_with(name: &str, vals: &[&str]) -> HeaderMap {
    let mut h = HeaderMap::new();
    h.insert(name.to_string(), vals.iter().map(|s| s.to_string()).collect());
    h
}

#[test]
fn header_map_insert_then_get() {
    let mut h = HeaderMap::new();
    assert_eq!(values(&h, "a"), None);
    h.insert("a".to_string(), vec!["1".to_string()]);
    h.insert("b".to_string(), vec!["2".to_string()]);
    h.insert("a".to_string(), vec!["3".to_string()]);
    assert_eq!(values(&h, "a"), Some(vec!["3".to_string()]));
    assert_eq!(values(&h, "b"), Some(vec!["2".to_string()]));
    assert_eq!(h.entries().len(), 2);
}

#[test]
fn add_header_keeps_old_values() {
    let mut h = headers_with("x-test", &["a"]);
    process_headers(&mut h, "x-test", &Strings::String("b".to_string()), false);
    assert_eq!(values(&h, "x-test"), Some(vec!["a".to_string(), "b".to_string()]));
    process_headers(&mut h, "x-new", &Strings::StringList(vec!["c".to_string(), "d".to_string()]), false);
    assert_eq!(values(&h, "x-new"), Some(vec!["c".to_string(), "d".to_string()]));
}

#[test]
fn update_header_replaces_values() {
    let mut h = headers_with("x-test", &["a", "b"]);
    process_headers(&mut h, "x-test", &Strings::String("c".to_string()), true);
    assert_eq!(values(&h, "x-test"), Some(vec!["c".to_string()]));
}

#[test]
fn client_ip_prefers_forwarded_for() {
    let h = headers_with("x-forwarded-for", &[" 10.0.0.1 , 10.0.0.2"]);
    assert_eq!(get_ip(&h, "192.168.1.1"), "10.0.0.1");
    let empty = headers_with("x-forwarded-for", &[""]);
    assert_eq!(get_ip(&empty, "192.168.1.1"), "192.168.1.1");
    assert_eq!(get_ip(&HeaderMap::new(), "192.168.1.1"), "192.168.1.1");
}

#[test]
fn cookie_lookup() {
    assert_eq!(get("a=1; session=abc", "session"), Ok("abc".to_string()));
    assert_eq!(
        get("a=1", "session"),
        Err(CookieError::NotFound("cookie session not found".to_string()))
    );
}

fn auth_headers(value: &str) -> HeaderMap {
    headers_with("authorization", &[value])
}

#[test]
fn basic_auth_accepts_matching_credentials() {
    // "user:pass" in base64
    let h = auth_headers("Basic dXNlcjpwYXNz");
    assert_eq!(check_basic_auth(&h, "user", "pass"), Ok(BasicAuthVerdict::Accept));
}

#[test]
fn basic_auth_refusals() {
    let wrong = auth_headers("Basic dXNlcjpwYXNz");
    assert_eq!(
        check_basic_auth(&wrong, "user", "other"),
        Ok(BasicAuthVerdict::Refuse("invalid credentials".to_string()))
    );
    assert_eq!(
        check_basic_auth(&HeaderMap::new(), "user", "pass"),
        Ok(BasicAuthVerdict::Refuse("missing authorization header".to_string()))
    );
    assert_eq!(
        check_basic_auth(&auth_headers("Bearer abc"), "user", "pass"),
        Ok(BasicAuthVerdict::Refuse("authorization type not supported".to_string()))
    );
    assert_eq!(
        check_basic_auth(&auth_headers("Basic"), "user", "pass"),
        Ok(BasicAuthVerdict::Refuse("invalid authorization header".to_string()))
    );
}

#[test]
fn basic_auth_errors() {
    assert_eq!(
        check_basic_auth(&auth_headers("Basic !!!"), "user", "pass"),
        Err(BasicAuthError::InvalidBase64)
    );
    // 0xff 0xfe in base64
    assert_eq!(
        check_basic_auth(&auth_headers("Basic //4="), "user", "pass"),
        Err(BasicAuthError::InvalidUtf8)
    );
}

fn request(headers: HeaderMap) -> HttpRequest {
    HttpRequest {
        method: HttpMethod::Get,
        path: "/".to_string(),
        uri: "/".to_string(),
        query_parameters: HeaderMap::new(),
        headers,
        remote_addr: "127.0.0.1".to_string(),
    }
}

#[test]
fn basic_middleware_answers() {
    match basic(request(auth_headers("Basic dXNlcjpwYXNz")), "user", "pass") {
        Ok(RequestMiddlewareResponse::HttpRequest(r)) => assert_eq!(r.path, "/"),
        _ => panic!("request should pass"),
    }
    match basic(request(HeaderMap::new()), "user", "pass") {
        Ok(RequestMiddlewareResponse::HttpResponse(r)) => {
            assert_eq!(r.status, StatusCode::BadRequest);
            assert_eq!(r.version, HttpVersion::Http11);
            assert_eq!(
                values(&r.headers, "x-auth-error"),
                Some(vec!["missing authorization header".to_string()])
            );
        }
        _ => panic!("request should be refused"),
    }
}

#[test]
fn asset_paths_and_types() {
    assert_eq!(asset_path("/"), "index.html");
    assert_eq!(asset_path("/css/app.css"), "css/app.css");
    assert_eq!(extension("swagger-ui.css.map"), "css.map");
    assert_eq!(extension("README"), "");
    assert_eq!(content_type(""), "text/plain");
    assert_eq!(content_type("html"), "text/html");
    assert_eq!(content_type("json"), "application/json");
    assert_eq!(content_type("css.map"), "application/octet-stream");
}

#[test]
fn serve_found_asset() {
    let asset = Asset { data: b"<html></html>".to_vec(), last_modified: None };
    let (res, body) = serve_response(HttpMethod::Get, "/", Some(asset), "http://x/schema.json");
    assert_eq!(res.status, StatusCode::OK);
    assert_eq!(body, b"<html></html>".to_vec());
    assert_eq!(values(&res.headers, "content-type"), Some(vec!["text/html".to_string()]));
    assert_eq!(values(&res.headers, "content-length"), Some(vec!["13".to_string()]));
    assert_eq!(values(&res.headers, "last-modified"), None);
}

#[test]
fn serve_rewrites_initializer() {
    let text = "url: \"https://petstore.swagger.io/v2/swagger.json\",";
    let asset = Asset {
        data: text.as_bytes().to_vec(),
        last_modified: Some(1057056757),
    };
    let (res, body) = serve_response(HttpMethod::Get, "/swagger-initializer.js", Some(asset), "/api.json");
    assert_eq!(String::from_utf8(body).unwrap(), "url: \"/api.json\",");
    assert_eq!(values(&res.headers, "content-length"), Some(vec!["17".to_string()]));
    assert_eq!(values(&res.headers, "content-type"), Some(vec!["text/javascript".to_string()]));
    assert_eq!(
        values(&res.headers, "last-modified"),
        Some(vec!["Tue, 1 Jul 2003 10:52:37 +0000".to_string()])
    );
}

#[test]
fn serve_refusals() {
    let (missing, body) = serve_response(HttpMethod::Get, "/nope", None, "");
    assert_eq!(missing.status, StatusCode::NotFound);
    assert!(body.is_empty());
    let asset = Asset { data: vec![1, 2, 3], last_modified: None };
    let (post, body) = serve_response(HttpMethod::Post, "/index.html", Some(asset), "");
    assert_eq!(post.status, StatusCode::MethodNotAllowed);
    assert!(body.is_empty());
    assert!(post.headers.entries().is_empty());
}
