use vstd::prelude::*;
use vstd::utf8::{decode_utf8, valid_utf8};

use base64::Engine;
use hmac::Mac;

verus! {

/// What base64's `general_purpose::STANDARD` engine decodes the bytes of `input` to
/// (`None` where it reports an error): standard alphabet, canonical padding required.
pub uninterp spec fn standard_base64_decoding(input: Seq<char>) -> Option<Seq<u8>>;

/// What an engine with base64's `URL_SAFE` alphabet and `NO_PAD` configuration decodes the
/// bytes of `input` to (`None` where it reports an error): padding must be absent.
pub uninterp spec fn url_safe_unpadded_base64_decoding(input: Seq<char>) -> Option<Seq<u8>>;

/// Calls `Engine::decode` of base64's `general_purpose::STANDARD`. Claims only that the
/// result is the named decoding of the input, and `None` exactly where the crate errs.
#[verifier::external_body]
pub(crate) fn decode_standard_base64(input: &str) -> (r: Option<Vec<u8>>)
    ensures
        match r {
            Some(v) => standard_base64_decoding(input@) == Some(v@),
            None => standard_base64_decoding(input@).is_none(),
        },
{
    base64::engine::general_purpose::STANDARD.decode(input).ok()
}

/// Calls `Engine::decode` of a base64 engine built from `alphabet::URL_SAFE` and
/// `general_purpose::NO_PAD`. Claims only that the result is the named decoding of the
/// input, and `None` exactly where the crate errs.
#[verifier::external_body]
pub(crate) fn decode_url_safe_unpadded_base64(input: &str) -> (r: Option<Vec<u8>>)
    ensures
        match r {
            Some(v) => url_safe_unpadded_base64_decoding(input@) == Some(v@),
            None => url_safe_unpadded_base64_decoding(input@).is_none(),
        },
{
    base64::engine::GeneralPurpose::new(
        &base64::alphabet::URL_SAFE,
        base64::engine::general_purpose::NO_PAD,
    ).decode(input).ok()
}

/// Calls std's `String::from_utf8`. As its documentation says, it succeeds exactly on valid
/// UTF-8, and the string then holds the characters that the bytes encode.
#[verifier::external_body]
pub(crate) fn string_from_utf8(bytes: Vec<u8>) -> (r: Option<String>)
    ensures
        match r {
            Some(s) => valid_utf8(bytes@) && s@ == decode_utf8(bytes@),
            None => !valid_utf8(bytes@),
        },
{
    String::from_utf8(bytes).ok()
}

} // verus!

verus! {

/// The (name, value) pairs that `form_urlencoded::parse` yields for the bytes of `input`, in order.
pub uninterp spec fn form_urlencoded_pairs(input: Seq<char>) -> Seq<(Seq<char>, Seq<char>)>;

/// The pairs of plain strings as abstract values.
pub open spec fn pairs_view(pairs: Seq<(String, String)>) -> Seq<(Seq<char>, Seq<char>)> {
    pairs.map_values(|p: (String, String)| (p.0@, p.1@))
}

/// Calls `form_urlencoded::parse` (through the url crate) and collects the decoded pairs as
/// owned strings. Claims only that the list is the named result for the input.
#[verifier::external_body]
pub(crate) fn parse_form_urlencoded(input: &str) -> (r: Vec<(String, String)>)
    ensures
        pairs_view(r@) == form_urlencoded_pairs(input@),
{
    url::form_urlencoded::parse(input.as_bytes()).into_owned().collect()
}

} // verus!

verus! {

/// Whether urlencoding leaves a byte as it is: ASCII letters, digits, `-`, `.`, `_`, `~`.
pub open spec fn url_safe_byte(b: u8) -> bool {
    (48 <= b <= 57) || (65 <= b <= 90) || (97 <= b <= 122) || b == 45 || b == 46 || b == 95 || b == 126
}

/// The upper-case hexadecimal digit for a value below 16.
pub open spec fn hex_digit(d: u8) -> char {
    if d < 10 {
        (48 + d) as char
    } else {
        (55 + d) as char
    }
}

/// The encoding of one byte: the byte itself when it is safe, else `%` and two hex digits.
pub open spec fn url_encoded_byte(b: u8) -> Seq<char> {
    if url_safe_byte(b) {
        seq![b as char]
    } else {
        seq!['%', hex_digit(b / 16), hex_digit(b % 16)]
    }
}

/// What `urlencoding::encode` gives for the UTF-8 bytes of a string.
pub open spec fn url_encoded(bytes: Seq<u8>) -> Seq<char>
    decreases bytes.len(),
{
    if bytes.len() == 0 {
        Seq::empty()
    } else {
        url_encoded_byte(bytes[0]) + url_encoded(bytes.drop_first())
    }
}

/// Calls `urlencoding::encode`. Its source percent-encodes every byte of the UTF-8 encoding
/// except ASCII letters, digits and `-`, `.`, `_`, `~`, with upper-case hex digits; that is
/// what this contract states.
#[verifier::external_body]
pub(crate) fn url_encode(s: &str) -> (r: String)
    ensures
        r@ == url_encoded(vstd::utf8::encode_utf8(s@)),
{
    urlencoding::encode(s).into_owned()
}

} // verus!

verus! {

/// The (name, value) pairs that the cookie crate's `Cookie::split_parse` yields for a
/// `Cookie` header, the pairs it fails to parse left out, in order.
pub uninterp spec fn split_parsed_cookies(header: Seq<char>) -> Seq<(Seq<char>, Seq<char>)>;

/// Calls the cookie crate's `Cookie::split_parse` and keeps the name and value of each cookie
/// that parses. Claims only that the list is the named result for the header.
#[verifier::external_body]
pub(crate) fn split_parse_cookies(header: &str) -> (r: Vec<(String, String)>)
    ensures
        pairs_view(r@) == split_parsed_cookies(header@),
{
    cookie::Cookie::split_parse(header)
        .filter_map(|c| c.ok())
        .map(|c| (c.name().to_string(), c.value().to_string()))
        .collect()
}

/// The earliest Unix time that the cookie crate's date type (time's default range) holds.
pub open spec fn min_cookie_time() -> int {
    -377705116800
}

/// The latest Unix time that the cookie crate's date type (time's default range) holds.
pub open spec fn max_cookie_time() -> int {
    253402300799
}

/// The `Set-Cookie` text that the cookie crate renders for a cookie `name=value` built with
/// path `/`, `HttpOnly`, and the given Unix expiry time.
pub uninterp spec fn rendered_cookie(name: Seq<char>, value: Seq<char>, expires: i64) -> Seq<char>;

/// Builds a cookie with the cookie crate's `Cookie::build` (path `/`, `HttpOnly`, expiry from
/// `OffsetDateTime::from_unix_timestamp`) and renders it with `to_string`. The expiry must lie
/// in the time crate's range, where `from_unix_timestamp` succeeds. Claims only that the text
/// is the named rendering of the arguments.
#[verifier::external_body]
pub(crate) fn render_cookie(name: &str, value: &str, expires: i64) -> (r: String)
    requires
        min_cookie_time() <= expires <= max_cookie_time(),
    ensures
        r@ == rendered_cookie(name@, value@, expires),
{
    cookie::Cookie::build((name.to_string(), value.to_string()))
        .path("/")
        .http_only(true)
        .expires(cookie::time::OffsetDateTime::from_unix_timestamp(expires).unwrap())
        .build()
        .to_string()
}

} // verus!

verus! {

/// What basic_cookies' `Cookie::parse` yields for a `Cookie` header: the (name, value) pairs in
/// order, or `None` where it reports an error.
pub uninterp spec fn basic_parsed_cookies(header: Seq<char>) -> Option<Seq<(Seq<char>, Seq<char>)>>;

/// Calls basic_cookies' `Cookie::parse` and keeps each cookie's name and value. Claims only
/// that the result is the named one for the header.
#[verifier::external_body]
pub(crate) fn basic_parse_cookies(header: &str) -> (r: Option<Vec<(String, String)>>)
    ensures
        match r {
            Some(v) => basic_parsed_cookies(header@) == Some(pairs_view(v@)),
            None => basic_parsed_cookies(header@).is_none(),
        },
{
    match basic_cookies::Cookie::parse(header) {
        Ok(cookies) => Some(cookies.iter().map(|c| (c.get_name().to_string(), c.get_value().to_string())).collect()),
        Err(_) => None,
    }
}

/// The HMAC-SHA256 tag of `message` under `key`, as the hmac and sha2 crates compute it.
pub uninterp spec fn hmac_sha256(key: Seq<u8>, message: Seq<u8>) -> Seq<u8>;

/// Computes HMAC-SHA256 with the hmac crate (`Hmac<Sha256>::new_from_slice`, `update`,
/// `finalize`). Its source accepts keys of any length (`new_from_slice` always succeeds), so
/// the contract claims that the result is the named tag and that a SHA-256 tag is 32 bytes
/// long.
#[verifier::external_body]
pub(crate) fn compute_hmac_sha256(key: &[u8], message: &[u8]) -> (r: Vec<u8>)
    ensures
        r@ == hmac_sha256(key@, message@),
        r@.len() == 32,
{
    match <hmac::Hmac<sha2::Sha256> as hmac::KeyInit>::new_from_slice(key) {
        Ok(mut mac) => {
            mac.update(message);
            mac.finalize().into_bytes().to_vec()
        },
        Err(_) => Vec::new(),
    }
}

} // verus!

verus! {

/// The records that the csv crate reads from `input` (no header row), each as its fields, or
/// `None` where it reports an error on some record.
pub uninterp spec fn csv_records(input: Seq<u8>) -> Option<Seq<Seq<Seq<char>>>>;

/// The fields of a list of records as abstract values.
pub open spec fn records_view(r: Seq<Vec<String>>) -> Seq<Seq<Seq<char>>> {
    r.map_values(|rec: Vec<String>| rec.deep_view())
}

/// Reads CSV with the csv crate (`ReaderBuilder::new().has_headers(false)`, `records`) and
/// collects each record's fields. Claims only that the result is the named one for the input.
#[verifier::external_body]
pub(crate) fn read_csv_records(input: &[u8]) -> (r: Option<Vec<Vec<String>>>)
    ensures
        match r {
            Some(v) => csv_records(input@) == Some(records_view(v@)),
            None => csv_records(input@).is_none(),
        },
{
    let mut rdr = csv::ReaderBuilder::new().has_headers(false).from_reader(input);
    rdr.records().map(|rec| rec.ok().map(|rec| rec.iter().map(|f| f.to_string()).collect())).collect()
}

} // verus!
