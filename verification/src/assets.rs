use vstd::prelude::*;
use vstd::slice::slice_to_vec;
use vstd::utf8::{decode_utf8, encode_utf8, valid_utf8};

use crate::codec::string_from_utf8;
use crate::http::{HeaderMap, HttpMethod, HttpResponse, HttpVersion, StatusCode};
use crate::numbers::{decimal_spec, decimal_text};
use crate::text::{
    chars_of, first_occurrence_from, lemma_first_occurrence_from, occurs_at, replace,
    replace_spec, str_eq, string_of_range, trim_start_matches, trim_start_matches_spec,
};

verus! {

/// The asset that a request path names: `/` names `index.html`; leading slashes are dropped.
pub open spec fn asset_path_spec(path: Seq<char>) -> Seq<char> {
    trim_start_matches_spec(if path == "/"@ { "/index.html"@ } else { path }, '/')
}

/// The asset that a request path names.
pub fn asset_path(path: &str) -> (out: String)
    ensures
        out@ == asset_path_spec(path@),
{
    if str_eq(path, "/") {
        trim_start_matches("/index.html", '/')
    } else {
        trim_start_matches(path, '/')
    }
}

/// The extension that picks an asset's content type: what follows the first `.` of its
/// path, or nothing when the path has no `.`.
pub open spec fn extension_spec(path: Seq<char>) -> Seq<char> {
    let k = first_occurrence_from(path, seq!['.'], 0);
    if k < 0 {
        Seq::empty()
    } else {
        path.subrange(k + 1, path.len() as int)
    }
}

/// The extension of an asset path.
pub fn extension(path: &str) -> (out: String)
    ensures
        out@ == extension_spec(path@),
{
    let chars = chars_of(path);
    let ghost dot = seq!['.'];
    let mut i: usize = 0;
    while i < chars.len()
        invariant
            chars@ == path@,
            dot == seq!['.'],
            i <= chars.len(),
            forall|k: int| 0 <= k < i ==> chars@[k] != '.',
        decreases chars.len() - i,
    {
        if chars[i] == '.' {
            proof {
                lemma_first_occurrence_from(path@, dot, 0);
                assert(occurs_at(path@, dot, i as int));
                let f = first_occurrence_from(path@, dot, 0);
                if f != i {
                    assert(occurs_at(path@, dot, f));
                    assert(path@[f + 0] == dot[0]);
                }
            }
            return string_of_range(&chars, i + 1, chars.len());
        }
        i = i + 1;
    }
    proof {
        lemma_first_occurrence_from(path@, dot, 0);
        let f = first_occurrence_from(path@, dot, 0);
        if f != -1 {
            assert(path@[f + 0] == dot[0]);
        }
    }
    String::new()
}

/// The content type that an extension selects.
pub open spec fn content_type_spec(ext: Seq<char>) -> Seq<char> {
    if ext == ""@ {
        "text/plain"@
    } else if ext == "html"@ {
        "text/html"@
    } else if ext == "png"@ {
        "image/png"@
    } else if ext == "css"@ {
        "text/css"@
    } else if ext == "md"@ {
        "text/plain"@
    } else if ext == "js"@ {
        "text/javascript"@
    } else if ext == "map"@ || ext == "json"@ {
        "application/json"@
    } else {
        "application/octet-stream"@
    }
}

/// The content type of each extension: none and `md` are plain text, `html` is HTML, `png`
/// a PNG image, `css` CSS, `js` JavaScript, `map` and `json` JSON; any other extension is
/// served as `application/octet-stream`.
pub proof fn law_content_type_per_extension(ext: Seq<char>)
    ensures
        ext == ""@ ==> content_type_spec(ext) == "text/plain"@,
        ext == "md"@ ==> content_type_spec(ext) == "text/plain"@,
        ext == "html"@ ==> content_type_spec(ext) == "text/html"@,
        ext == "png"@ ==> content_type_spec(ext) == "image/png"@,
        ext == "css"@ ==> content_type_spec(ext) == "text/css"@,
        ext == "js"@ ==> content_type_spec(ext) == "text/javascript"@,
        ext == "map"@ ==> content_type_spec(ext) == "application/json"@,
        ext == "json"@ ==> content_type_spec(ext) == "application/json"@,
        ext != ""@ && ext != "md"@ && ext != "html"@ && ext != "png"@ && ext != "css"@ && ext != "js"@
            && ext != "map"@ && ext != "json"@ ==> content_type_spec(ext) == "application/octet-stream"@,
{
    reveal_strlit("");
    reveal_strlit("md");
    reveal_strlit("html");
    reveal_strlit("png");
    reveal_strlit("css");
    reveal_strlit("js");
    reveal_strlit("map");
    reveal_strlit("json");
    assert(""@.len() == 0);
    assert("md"@.len() == 2 && "md"@[0] == 'm');
    assert("html"@.len() == 4 && "html"@[0] == 'h');
    assert("png"@.len() == 3 && "png"@[0] == 'p');
    assert("css"@.len() == 3 && "css"@[0] == 'c');
    assert("js"@.len() == 2 && "js"@[0] == 'j');
    assert("map"@.len() == 3 && "map"@[0] == 'm');
    assert("json"@.len() == 4 && "json"@[0] == 'j');
}

/// The content type that an extension selects.
pub fn content_type(ext: &str) -> (out: String)
    ensures
        out@ == content_type_spec(ext@),
{
    let t = if str_eq(ext, "") {
        "text/plain"
    } else if str_eq(ext, "html") {
        "text/html"
    } else if str_eq(ext, "png") {
        "image/png"
    } else if str_eq(ext, "css") {
        "text/css"
    } else if str_eq(ext, "md") {
        "text/plain"
    } else if str_eq(ext, "js") {
        "text/javascript"
    } else if str_eq(ext, "map") || str_eq(ext, "json") {
        "application/json"
    } else {
        "application/octet-stream"
    };
    String::from_str(t)
}

/// The one asset whose text is rewritten when served.
pub open spec fn initializer_path() -> Seq<char> {
    "swagger-initializer.js"@
}

/// The schema address that the packaged initializer names, which the served copy replaces.
pub open spec fn packaged_schema_url() -> Seq<char> {
    "https://petstore.swagger.io/v2/swagger.json"@
}

/// An asset of the package as the serve operation finds it: its bytes, and its modification
/// time in seconds since the Unix epoch, where the package records one.
pub struct Asset {
    pub data: Vec<u8>,
    pub last_modified: Option<u64>,
}

/// The latest time, in seconds since the Unix epoch, that an RFC 2822 date can show: the end
/// of the year 9999.
pub open spec fn max_rfc2822_time() -> int {
    253402300799
}

/// The RFC 2822 date that chrono writes for a time in seconds since the Unix epoch, in UTC.
pub uninterp spec fn rfc2822_text(secs: u64) -> Seq<char>;

/// Turns seconds since the Unix epoch into a `SystemTime`, converts it to chrono's
/// `DateTime<Utc>` and writes it with `to_rfc2822`. The time must lie within the years that
/// RFC 2822 dates can show, where neither step panics. Claims only that the text is the named
/// result.
#[verifier::external_body]
fn rfc2822_date(secs: u64) -> (r: String)
    requires
        secs <= max_rfc2822_time(),
    ensures
        r@ == rfc2822_text(secs),
{
    let time = std::time::SystemTime::UNIX_EPOCH + std::time::Duration::from_secs(secs);
    chrono::DateTime::<chrono::Utc>::from(time).to_rfc2822()
}

/// The bytes served for an asset: the initializer's text with the packaged schema address
/// replaced by the configured one; any other asset as it is.
pub open spec fn served_data_spec(path: Seq<char>, data: Seq<u8>, schema_url: Seq<char>) -> Seq<u8> {
    if path == initializer_path() {
        encode_utf8(replace_spec(decode_utf8(data), packaged_schema_url(), schema_url))
    } else {
        data
    }
}

/// Whether an asset can be served: the initializer must hold UTF-8 text.
pub open spec fn servable(path: Seq<char>, data: Seq<u8>) -> bool {
    path == initializer_path() ==> valid_utf8(data)
}

/// The bytes served for an asset.
pub fn served_data(path: &str, data: Vec<u8>, schema_url: &str) -> (out: Vec<u8>)
    requires
        servable(path@, data@),
    ensures
        out@ == served_data_spec(path@, data@, schema_url@),
{
    if str_eq(path, "swagger-initializer.js") {
        let ghost bytes = data@;
        match string_from_utf8(data) {
            Some(text) => {
                let replaced = replace(text.as_str(), "https://petstore.swagger.io/v2/swagger.json", schema_url);
                slice_to_vec(replaced.as_str().as_bytes())
            },
            None => {
                assert(!valid_utf8(bytes));
                Vec::new()
            },
        }
    } else {
        data
    }
}

/// The headers of a served asset, in the order the operation sets them.
pub open spec fn asset_headers(
    last_modified: Option<Seq<char>>,
    content_type: Seq<char>,
    length: nat,
) -> Map<Seq<char>, Seq<Seq<char>>> {
    let base = match last_modified {
        Some(t) => Map::<Seq<char>, Seq<Seq<char>>>::empty().insert("last-modified"@, seq![t]),
        None => Map::<Seq<char>, Seq<Seq<char>>>::empty(),
    };
    base.insert("content-type"@, seq![content_type]).insert("content-length"@, seq![decimal_spec(length)])
}

/// Whether a response is an empty answer with the given status: HTTP/1.1, no headers.
pub open spec fn bare_response(r: HttpResponse, status: StatusCode) -> bool {
    &&& r.version == HttpVersion::Http11
    &&& r.status == status
    &&& r.headers@ == Map::<Seq<char>, Seq<Seq<char>>>::empty()
}

fn bare(status: StatusCode) -> (out: HttpResponse)
    ensures
        bare_response(out, status),
{
    HttpResponse { version: HttpVersion::Http11, status, headers: HeaderMap::new() }
}

fn one_value(v: String) -> (out: Vec<String>)
    ensures
        out.deep_view() == seq![v@],
{
    let mut out: Vec<String> = Vec::new();
    out.push(v);
    assert(out.deep_view() =~= seq![v@]);
    out
}

/// The serve operation's answer to one request, given the asset that its path names (`None`
/// when the package has no such asset): 404 with no body when there is none; 405 with no body
/// for a method other than GET; else 200 with the asset's bytes and its `last-modified`,
/// `content-type` and `content-length` headers, `last-modified` written as an RFC 2822 date.
pub fn serve_response(method: HttpMethod, path: &str, asset: Option<Asset>, schema_url: &str) -> (out: (HttpResponse, Vec<u8>))
    requires
        method == HttpMethod::Get ==> (asset matches Some(a) ==> servable(asset_path_spec(path@), a.data@)),
        method == HttpMethod::Get ==> (asset matches Some(a) ==> (a.last_modified matches Some(t) ==> t
            <= max_rfc2822_time())),
    ensures
        match asset {
            None => bare_response(out.0, StatusCode::NotFound) && out.1@.len() == 0,
            Some(a) => if method != HttpMethod::Get {
                bare_response(out.0, StatusCode::MethodNotAllowed) && out.1@.len() == 0
            } else {
                let p = asset_path_spec(path@);
                let body = served_data_spec(p, a.data@, schema_url@);
                &&& out.0.version == HttpVersion::Http11
                &&& out.0.status == StatusCode::OK
                &&& out.1@ == body
                &&& out.0.headers@ == asset_headers(
                    match a.last_modified { Some(t) => Some(rfc2822_text(t)), None => None },
                    content_type_spec(extension_spec(p)),
                    body.len(),
                )
            },
        },
{
    match asset {
        None => (bare(StatusCode::NotFound), Vec::new()),
        Some(a) => {
            if method != HttpMethod::Get {
                return (bare(StatusCode::MethodNotAllowed), Vec::new());
            }
            let p = asset_path(path);
            let mut headers = HeaderMap::new();
            match a.last_modified {
                Some(t) => {
                    headers.insert(String::from_str("last-modified"), one_value(rfc2822_date(t)));
                },
                None => {},
            }
            let ext = extension(p.as_str());
            let ct = content_type(ext.as_str());
            let data = served_data(p.as_str(), a.data, schema_url);
            let len = data.len();
            headers.insert(String::from_str("content-type"), one_value(ct));
            headers.insert(String::from_str("content-length"), one_value(decimal_text(len as u64)));
            (HttpResponse { version: HttpVersion::Http11, status: StatusCode::OK, headers }, data)
        },
    }
}

} // verus!
