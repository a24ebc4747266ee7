use vstd::prelude::*;

use crate::codec::{form_urlencoded_pairs, pairs_view, parse_form_urlencoded};
use crate::path_literals::{path_selectable, selectable_path};
use crate::json_text::{fields_of_members, json_parsing, members_stand_for, parse_json};
use crate::xmljson::wrap_in_root;
use crate::json::{
    Json, JsonValue, extend_ok, extend_object_at_path, extended, fields_map, json_view,
    lemma_object_view, object_get, object_insert, json_clone,
};
use crate::text::{
    replace, replace_spec, split, split_spec, str_eq, trim_start_matches,
    trim_start_matches_spec,
};

verus! {

/// The keys that the push operation walks for a path: `$.` removed everywhere, leading dots
/// dropped, the rest split at dots.
pub open spec fn push_path_spec(path: Seq<char>) -> Seq<Seq<char>> {
    split_spec(trim_start_matches_spec(replace_spec(path, "$."@, Seq::empty()), '.'), "."@)
}

/// The keys that the push operation walks for a path.
pub fn push_path(path: &str) -> (out: Vec<String>)
    ensures
        out.deep_view() == push_path_spec(path@),
{
    let without_root = replace(path, "$.", "");
    let trimmed = trim_start_matches(without_root.as_str(), '.');
    proof {
        reveal_strlit("");
        assert(""@ =~= Seq::<char>::empty());
    }
    split(trimmed.as_str(), ".")
}

/// The push operation: puts `value` into `input` at the position that `path` names.
pub fn push(input: Json, path: &str, value: Json) -> (out: Json)
    requires
        extend_ok(json_view(input), push_path_spec(path@), json_view(value)),
    ensures
        json_view(out) == extended(json_view(input), push_path_spec(path@), json_view(value)),
{
    let keys = push_path(path);
    extend_object_at_path(input, &keys, value)
}

/// How the serialize operation reads its content, by content type.
#[derive(Debug, PartialEq, Eq)]
pub enum ContentKind {
    Json,
    FormUrlencoded,
    Xml,
    PlainText,
    /// Any other content type; the operation fails with this message.
    Unsupported(String),
}

/// The reading that a content type selects.
pub open spec fn content_kind_spec(content_type: Seq<char>) -> Option<ContentKind> {
    if content_type == "application/json"@ {
        Some(ContentKind::Json)
    } else if content_type == "application/x-www-form-urlencoded"@ {
        Some(ContentKind::FormUrlencoded)
    } else if content_type == "application/xml"@ {
        Some(ContentKind::Xml)
    } else if content_type == "text/plain"@ {
        Some(ContentKind::PlainText)
    } else {
        None
    }
}

/// The reading that a content type selects; for an unknown type, the message
/// `Unsupported content type: <type>`.
pub fn content_kind(content_type: &str) -> (out: ContentKind)
    ensures
        match content_kind_spec(content_type@) {
            Some(k) => out == k,
            None => out matches ContentKind::Unsupported(msg) && msg@ == "Unsupported content type: "@ + content_type@,
        },
{
    if str_eq(content_type, "application/json") {
        ContentKind::Json
    } else if str_eq(content_type, "application/x-www-form-urlencoded") {
        ContentKind::FormUrlencoded
    } else if str_eq(content_type, "application/xml") {
        ContentKind::Xml
    } else if str_eq(content_type, "text/plain") {
        ContentKind::PlainText
    } else {
        let mut msg = String::from_str("Unsupported content type: ");
        msg.append(content_type);
        ContentKind::Unsupported(msg)
    }
}

/// The map that pairs collected into a map give: a later pair wins over an earlier one.
pub open spec fn pairs_map(pairs: Seq<(Seq<char>, Seq<char>)>) -> Map<Seq<char>, JsonValue>
    decreases pairs.len(),
{
    if pairs.len() == 0 {
        Map::empty()
    } else {
        pairs_map(pairs.drop_last()).insert(pairs.last().0, JsonValue::String(pairs.last().1))
    }
}

/// An object of string values built from (name, value) pairs, later pairs winning.
pub fn object_from_pairs(pairs: &Vec<(String, String)>) -> (out: Json)
    ensures
        json_view(out) == JsonValue::Object(pairs_map(pairs_view(pairs@))),
{
    let mut fields: Vec<(String, Json)> = Vec::new();
    let mut i: usize = 0;
    assert(fields_map(fields@) =~= Map::empty());
    while i < pairs.len()
        invariant
            i <= pairs.len(),
            fields_map(fields@) == pairs_map(pairs_view(pairs@).take(i as int)),
        decreases pairs.len() - i,
    {
        proof {
            assert(pairs_view(pairs@).take(i + 1).drop_last() =~= pairs_view(pairs@).take(i as int));
        }
        object_insert(&mut fields, pairs[i].0.clone(), Json::String(pairs[i].1.clone()));
        i = i + 1;
    }
    assert(pairs_view(pairs@).take(pairs.len() as int) =~= pairs_view(pairs@));
    proof {
        lemma_object_view(fields);
    }
    Json::Object(fields)
}

/// Form-urlencoded content read as an object of strings.
pub fn form_object(content: &str) -> (out: Json)
    ensures
        json_view(out) == JsonValue::Object(pairs_map(form_urlencoded_pairs(content@))),
{
    let pairs = parse_form_urlencoded(content);
    object_from_pairs(&pairs)
}

/// Plain-text content read as a JSON string.
pub fn text_value(content: &str) -> (out: Json)
    ensures
        json_view(out) == JsonValue::String(content@),
{
    Json::String(String::from_str(content))
}

/// The fields of parsed XML that keep a value: each field whose value is an object with a
/// `$value` entry, mapped to that entry.
pub open spec fn flattened(m: Map<Seq<char>, JsonValue>) -> Map<Seq<char>, JsonValue> {
    Map::new(
        |k: Seq<char>| m.dom().contains(k) && (m[k] matches JsonValue::Object(inner) && inner.dom().contains("$value"@)),
        |k: Seq<char>| m[k]->Object_0["$value"@],
    )
}

/// Flattens parsed XML as the serialize operation does: every field whose value holds a
/// `$value` entry becomes that entry; other fields are dropped.
pub fn flatten_xml_fields(parsed: &Vec<(String, Json)>) -> (out: Json)
    requires
        crate::json::keys_distinct(parsed@),
    ensures
        json_view(out) == JsonValue::Object(flattened(fields_map(parsed@))),
{
    let ghost m = fields_map(parsed@);
    let mut out: Vec<(String, Json)> = Vec::new();
    let mut i: usize = 0;
    assert(fields_map(out@) =~= Map::empty());
    while i < parsed.len()
        invariant
            i <= parsed.len(),
            m == fields_map(parsed@),
            crate::json::keys_distinct(parsed@),
            fields_map(out@) == flattened(fields_map(parsed@.take(i as int))),
        decreases parsed.len() - i,
    {
        let ghost before = fields_map(out@);
        proof {
            crate::json::lemma_fields_map_take_succ(parsed@, i as int);
            let k = parsed@[i as int].0@;
            crate::json::lemma_last_index_of(parsed@.take(i as int), k);
            if crate::json::last_index_of(parsed@.take(i as int), k) >= 0 {
                let idx = crate::json::last_index_of(parsed@.take(i as int), k);
                assert(parsed@[idx].0@ == k);
            }
            assert(!fields_map(parsed@.take(i as int)).dom().contains(k));
        }
        match &parsed[i].1 {
            Json::Object(inner) => {
                proof {
                    lemma_object_view(*inner);
                }
                match object_get(inner, "$value") {
                    Some(v) => {
                        let c = json_clone(v);
                        object_insert(&mut out, parsed[i].0.clone(), c);
                        assert(fields_map(out@) =~= flattened(fields_map(parsed@.take(i + 1))));
                    },
                    None => {
                        assert(fields_map(out@) =~= flattened(fields_map(parsed@.take(i + 1))));
                    },
                }
            },
            _ => {
                assert(fields_map(out@) =~= flattened(fields_map(parsed@.take(i + 1))));
            },
        }
        i = i + 1;
    }
    assert(parsed@.take(parsed.len() as int) =~= parsed@);
    proof {
        lemma_object_view(out);
    }
    Json::Object(out)
}

/// What serde_xml_rs reads from an XML text as a map of field names to `serde_json::Value`s;
/// or the error's message.
pub uninterp spec fn xml_fields_parsing(text: Seq<char>) -> Result<Map<Seq<char>, JsonValue>, Seq<char>>;

/// Reads an XML text with `serde_xml_rs::from_str` into a `HashMap<String, Value>` and hands
/// back its fields, each value written with `to_string`, in the order the map is walked (which
/// is left open). Claims that the outcome is the named result, one member per field, and that
/// serde_json reads the text it writes for a value back as that value.
#[verifier::external_body]
fn xml_field_texts(text: &str) -> (r: Result<Vec<(String, String)>, String>)
    ensures
        match r {
            Err(e) => xml_fields_parsing(text@) == Err::<Map<Seq<char>, JsonValue>, Seq<char>>(e@),
            Ok(members) => xml_fields_parsing(text@) matches Ok(m) && m.dom().finite() && members_stand_for(members@, m),
        },
{
    let fields: std::collections::HashMap<String, serde_json::Value> =
        serde_xml_rs::from_str(text).map_err(|e| e.to_string())?;
    Ok(fields.into_iter().map(|(k, v)| (k, v.to_string())).collect())
}

/// The object that the serialize operation makes of XML fields: each field whose value holds
/// a `$value` entry, mapped to that entry.
fn xml_object(members: &Vec<(String, String)>, Ghost(m): Ghost<Map<Seq<char>, JsonValue>>) -> (out: Json)
    requires
        members_stand_for(members@, m),
    ensures
        json_view(out) == JsonValue::Object(flattened(m)),
{
    let fields = fields_of_members(members, Ghost(m));
    flatten_xml_fields(&fields)
}

/// The serialize operation: content read by its content type. JSON as serde_json reads it
/// (`Error parsing JSON content: <reason>` where it does not); form data as an object of its
/// pairs; XML as the fields that serde_xml_rs reads, retried inside `<root>...</root>` where
/// the text alone does not read (`Error parsing XML content: <reason>` where neither does),
/// each field with a `$value` entry mapped to it; plain text as a string; any other content
/// type refused with `Unsupported content type: <type>`.
pub fn serialize(content: &str, content_type: &str) -> (r: Result<Json, String>)
    ensures
        match content_kind_spec(content_type@) {
            None => r matches Err(m) && m@ == "Unsupported content type: "@ + content_type@,
            Some(ContentKind::Json) => match json_parsing(content@) {
                Ok(v) => r matches Ok(j) && json_view(j) == v,
                Err(e) => r matches Err(m) && m@ == "Error parsing JSON content: "@ + e,
            },
            Some(ContentKind::FormUrlencoded) => r matches Ok(j)
                && json_view(j) == JsonValue::Object(pairs_map(form_urlencoded_pairs(content@))),
            Some(ContentKind::Xml) => match xml_fields_parsing(content@) {
                Ok(m) => r matches Ok(j) && json_view(j) == JsonValue::Object(flattened(m)),
                Err(_) => match xml_fields_parsing("<root>"@ + content@ + "</root>"@) {
                    Ok(m) => r matches Ok(j) && json_view(j) == JsonValue::Object(flattened(m)),
                    Err(e) => r matches Err(msg) && msg@ == "Error parsing XML content: "@ + e,
                },
            },
            Some(ContentKind::PlainText) => r matches Ok(j) && json_view(j) == JsonValue::String(content@),
            Some(ContentKind::Unsupported(_)) => false,
        },
{
    match content_kind(content_type) {
        ContentKind::Json => match parse_json(content) {
            Ok(j) => Ok(j),
            Err(e) => {
                let mut m = String::from_str("Error parsing JSON content: ");
                m.append(e.as_str());
                Err(m)
            },
        },
        ContentKind::FormUrlencoded => Ok(form_object(content)),
        ContentKind::Xml => {
            match xml_field_texts(content) {
                Ok(members) => {
                    let ghost m = xml_fields_parsing(content@)->Ok_0;
                    Ok(xml_object(&members, Ghost(m)))
                },
                Err(_) => {
                    let wrapped = wrap_in_root(content);
                    match xml_field_texts(wrapped.as_str()) {
                        Ok(members) => {
                            let ghost m = xml_fields_parsing(wrapped@)->Ok_0;
                            Ok(xml_object(&members, Ghost(m)))
                        },
                        Err(e) => {
                            let mut msg = String::from_str("Error parsing XML content: ");
                            msg.append(e.as_str());
                            Err(msg)
                        },
                    }
                },
            }
        },
        ContentKind::PlainText => Ok(text_value(content)),
        ContentKind::Unsupported(msg) => Err(msg),
    }
}

/// Why the select operation fails when the path finds nothing.
pub open spec fn no_value_message() -> Seq<char> {
    "No value found at the specified path"@
}

/// What jsonpath_lib's `select` finds in a JSON text for a path: the JSON text of each value
/// selected, in order; or the error's message.
pub uninterp spec fn jsonpath_selection(input_json: Seq<char>, path: Seq<char>) -> Result<Seq<Seq<char>>, Seq<char>>;

/// Reads a JSON text into a `serde_json::Value`, selects with jsonpath_lib's `select`, and
/// writes each selected value back as JSON text. Claims only that the outcome is the named
/// result. The `requires` leaves out the paths that lead jsonpath_lib's selector to a panic:
/// a filter's number literal that is not a finite `f64` (unwrapped into a JSON number), a
/// range step of zero (handed to `step_by`), and a key list, union or range inside a filter
/// (`unimplemented!`). Its remaining `unreachable!` and empty-term panics check the order of
/// the tokens its own parser gives; nothing is claimed of them.
#[verifier::external_body]
fn jsonpath_select(input_json: &str, path: &str) -> (r: Result<Vec<String>, String>)
    requires
        selectable_path(path@),
    ensures
        match r {
            Ok(v) => jsonpath_selection(input_json@, path@) == Ok::<Seq<Seq<char>>, Seq<char>>(v.deep_view()),
            Err(e) => jsonpath_selection(input_json@, path@) == Err::<Seq<Seq<char>>, Seq<char>>(e@),
        },
{
    let value: serde_json::Value = serde_json::from_str(input_json).map_err(|e| e.to_string())?;
    let selected = jsonpath_lib::select(&value, path).map_err(|e| e.to_string())?;
    Ok(selected.iter().map(|v| v.to_string()).collect())
}

/// Why the select operation refuses a path that would lead jsonpath_lib's selector to a panic.
pub open spec fn unselectable_path_message() -> Seq<char> {
    "Error selecting value by path: the path holds a form that the selector cannot evaluate"@
}

/// The select operation for one input (given and answered as JSON text): the first value the
/// path selects; `Error selecting value by path: <reason>` where the path fails;
/// `No value found at the specified path` where it selects nothing. A path that would lead
/// jsonpath_lib's selector to a panic (a number literal that may not be a finite `f64`, a
/// range step of zero, a key list, union or range inside a filter) is refused with its own
/// error.
pub fn select(input_json: &str, path: &str) -> (r: Result<String, String>)
    ensures
        !selectable_path(path@) ==> (r matches Err(m) && m@ == unselectable_path_message()),
        selectable_path(path@) ==> match jsonpath_selection(input_json@, path@) {
            Err(e) => r matches Err(m) && m@ == "Error selecting value by path: "@ + e,
            Ok(found) => if found.len() > 0 {
                r matches Ok(v) && v@ == found[0]
            } else {
                r matches Err(m) && m@ == no_value_message()
            },
        },
{
    if !path_selectable(path) {
        return Err(String::from_str("Error selecting value by path: the path holds a form that the selector cannot evaluate"));
    }
    match jsonpath_select(input_json, path) {
        Err(e) => {
            let mut m = String::from_str("Error selecting value by path: ");
            m.append(e.as_str());
            Err(m)
        },
        Ok(found) => {
            if found.len() > 0 {
                assert(found.deep_view()[0] == found@[0]@);
                Ok(found[0].clone())
            } else {
                Err(String::from_str("No value found at the specified path"))
            }
        },
    }
}

} // verus!
