use vstd::prelude::*;

use crate::http::{HeaderMap, RequestMiddlewareResponse, Strings, strings_values};
use crate::text::clone_strings;

verus! {

/// The values that `name` holds after `process_headers`: the old values are kept when the
/// name is present and `replace` is false, and the new values follow them.
pub open spec fn processed_values(
    old: Map<Seq<char>, Seq<Seq<char>>>,
    name: Seq<char>,
    value: Strings,
    replace: bool,
) -> Seq<Seq<char>> {
    if old.dom().contains(name) && !replace {
        old[name] + strings_values(value)
    } else {
        strings_values(value)
    }
}

/// Adding to a header keeps what it held: with `replace` false and the header present, its
/// values afterwards are its old values followed by every new value (the one string, or the
/// whole list, in order).
pub proof fn law_add_appends_to_old_values(old: Map<Seq<char>, Seq<Seq<char>>>, name: Seq<char>, value: Strings)
    requires
        old.dom().contains(name),
    ensures
        processed_values(old, name, value, false) == old[name] + match value {
            Strings::String(s) => seq![s@],
            Strings::StringList(l) => l.deep_view(),
        },
        processed_values(old, name, value, false).take(old[name].len() as int) == old[name],
{
    let out = processed_values(old, name, value, false);
    assert(out.take(old[name].len() as int) =~= old[name]);
}

/// Setting a header (`replace` true), or adding to one that is absent, gives it exactly the
/// new values: the one string, or the whole list, in order.
pub proof fn law_set_gives_new_values(old: Map<Seq<char>, Seq<Seq<char>>>, name: Seq<char>, value: Strings, replace: bool)
    requires
        replace || !old.dom().contains(name),
    ensures
        processed_values(old, name, value, replace) == match value {
            Strings::String(s) => seq![s@],
            Strings::StringList(l) => l.deep_view(),
        },
{
}

/// Adds `value` to the header `header` (`replace` false), or sets the header to `value`
/// (`replace` true); the other headers stay as they were.
pub fn process_headers(headers: &mut HeaderMap, header: &str, value: &Strings, replace: bool)
    ensures
        final(headers).view() == old(headers).view().insert(
            header@,
            processed_values(old(headers).view(), header@, *value, replace),
        ),
{
    let mut values: Vec<String> = match headers.get(header) {
        Some(existing) => {
            if replace {
                Vec::new()
            } else {
                clone_strings(existing)
            }
        },
        None => Vec::new(),
    };
    let ghost before = values.deep_view();
    match value {
        Strings::String(v) => {
            values.push(v.clone());
            assert(values.deep_view() =~= before + seq![v@]);
        },
        Strings::StringList(list) => {
            let mut i: usize = 0;
            while i < list.len()
                invariant
                    i <= list.len(),
                    values.deep_view() =~= before + list.deep_view().take(i as int),
                decreases list.len() - i,
            {
                let ghost prev = values.deep_view();
                values.push(list[i].clone());
                assert(values.deep_view() =~= prev.push(list[i as int]@));
                i = i + 1;
            }
            assert(list.deep_view().take(list.len() as int) =~= list.deep_view());
        },
    }
    assert(values.deep_view() =~= processed_values(headers.view(), header@, *value, replace));
    headers.insert(String::from_str(header), values);
}

} // verus!

verus! {

/// What the add (`replace` false) and update (`replace` true) operations send on: the request
/// or response that came in, with `process_headers` applied to its headers.
pub fn apply_header(input: RequestMiddlewareResponse, header: &str, value: &Strings, replace: bool) -> (out: RequestMiddlewareResponse)
    ensures
        match (input, out) {
            (RequestMiddlewareResponse::HttpRequest(a), RequestMiddlewareResponse::HttpRequest(b)) => {
                &&& b.method == a.method
                &&& b.path == a.path
                &&& b.uri == a.uri
                &&& b.query_parameters == a.query_parameters
                &&& b.remote_addr == a.remote_addr
                &&& b.headers.view() == a.headers.view().insert(
                    header@,
                    processed_values(a.headers.view(), header@, *value, replace),
                )
            },
            (RequestMiddlewareResponse::HttpResponse(a), RequestMiddlewareResponse::HttpResponse(b)) => {
                &&& b.version == a.version
                &&& b.status == a.status
                &&& b.headers.view() == a.headers.view().insert(
                    header@,
                    processed_values(a.headers.view(), header@, *value, replace),
                )
            },
            _ => false,
        },
{
    match input {
        RequestMiddlewareResponse::HttpRequest(mut req) => {
            process_headers(&mut req.headers, header, value, replace);
            RequestMiddlewareResponse::HttpRequest(req)
        },
        RequestMiddlewareResponse::HttpResponse(mut res) => {
            process_headers(&mut res.headers, header, value, replace);
            RequestMiddlewareResponse::HttpResponse(res)
        },
    }
}

} // verus!
