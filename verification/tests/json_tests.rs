use wick_components::json::{
    each, group_same_elements, includes, json_eq, json_get, merge_objects, new_object, simplify_value,
    str_field, string_list, Json,
};
use wick_components::object::{
    content_kind, flatten_xml_fields, form_object, object_from_pairs, push, push_path,
    select, text_value, ContentKind,
};
use wick_components::json_text::parse_json;
use wick_components::object::serialize;
use wick_components::path_literals::{number_literals_finite, path_selectable};
use wick_components::xmljson::{root_element_name, wrap_in_root, xml_json, xml_to_json};

fn s(v: &str) -> Json {
    Json::String(v.to_string())
}

fn obj(fields: Vec<(&str, Json)>) -> Json {
    Json::Object(fields.into_iter().map(|(k, v)| (k.to_string(), v)).collect())
}

fn same(a: &Json, b: &Json) -> bool {
    json_eq(a, b)
}

#[test]
fn push_path_walks_keys() {
    assert_eq!(push_path("$.a.b"), vec!["a", "b"]);
    assert_eq!(push_path(".a"), vec!["a"]);
    assert_eq!(push_path("a.$.b"), vec!["a", "b"]);
}

#[test]
fn push_string_reads_back() {
    let input = obj(vec![("keep", s("me"))]);
    let out = push(input, "$.a.b", s("v"));
    let a = json_get(&out, "a").unwrap();
    assert!(same(json_get(a, "b").unwrap(), &s("v")));
    assert!(same(json_get(&out, "keep").unwrap(), &s("me")));
}

#[test]
fn push_object_merges_fields() {
    let input = obj(vec![("a", obj(vec![("x", s("1")), ("y", s("2"))]))]);
    let out = push(input, "a", obj(vec![("y", s("3")), ("z", s("4"))]));
    let expected = obj(vec![("a", obj(vec![("x", s("1")), ("y", s("3")), ("z", s("4"))]))]);
    assert!(same(&out, &expected));
}

#[test]
fn content_kinds() {
    assert_eq!(content_kind("application/json"), ContentKind::Json);
    assert_eq!(content_kind("application/x-www-form-urlencoded"), ContentKind::FormUrlencoded);
    assert_eq!(content_kind("application/xml"), ContentKind::Xml);
    assert_eq!(content_kind("text/plain"), ContentKind::PlainText);
    assert_eq!(
        content_kind("image/png"),
        ContentKind::Unsupported("Unsupported content type: image/png".to_string())
    );
}

#[test]
fn form_content_later_pair_wins() {
    let out = form_object("a=1&b=hello%20world&a=2");
    let expected = obj(vec![("a", s("2")), ("b", s("hello world"))]);
    assert!(same(&out, &expected));
    let pairs = vec![("k".to_string(), "v".to_string())];
    assert!(same(&object_from_pairs(&pairs), &obj(vec![("k", s("v"))])));
}

#[test]
fn text_content_is_a_string() {
    assert!(same(&text_value("hi"), &s("hi")));
}

#[test]
fn xml_fields_flattened() {
    let parsed = vec![
        ("a".to_string(), obj(vec![("$value", s("1"))])),
        ("b".to_string(), s("dropped")),
        ("c".to_string(), obj(vec![("other", s("x"))])),
    ];
    assert!(same(&flatten_xml_fields(&parsed), &obj(vec![("a", s("1"))])));
}

#[test]
fn select_first_or_fail() {
    let input = "{\"a\":{\"b\":[1,2]},\"c\":\"x\"}";
    assert_eq!(select(input, "$.a.b[*]"), Ok("1".to_string()));
    assert_eq!(select(input, "$.c"), Ok("\"x\"".to_string()));
    assert_eq!(select(input, "$.missing"), Err("No value found at the specified path".to_string()));
    let bad = select(input, "$.[").unwrap_err();
    assert!(bad.starts_with("Error selecting value by path: "));
}

#[test]
fn select_filters_on_numbers() {
    let input = "{\"items\":[{\"n\":1},{\"n\":100000},{\"n\":2.5}]}";
    assert_eq!(select(input, "$.items[?(@.n == 1e5)].n"), Ok("100000".to_string()));
    assert_eq!(select(input, "$.items[?(@.n > 2.4)].n"), Ok("100000".to_string()));
    assert_eq!(select(input, "$.items[?(@.n < -1)]"), Err("No value found at the specified path".to_string()));
    let refused = Err("Error selecting value by path: the path holds a form that the selector cannot evaluate".to_string());
    assert_eq!(select(input, "$.items[?(@.n == 1e400)]"), refused);
    assert_eq!(select(input, "$.items[?(@.n == 1.5e400)]"), refused);
    assert_eq!(select(input, "$.items[?(@.n == -inf)]"), refused);
}

#[test]
fn number_literal_finiteness() {
    assert!(number_literals_finite("$.store.book[0].price"));
    assert!(number_literals_finite("$[?(@.a == 1e5)]"));
    assert!(number_literals_finite("$[?(@.a == 1.5E-400)]"));
    assert!(number_literals_finite("$[?(@.a == 12abc)]"));
    assert!(!number_literals_finite("$[?(@.a == 1e309)]"));
    assert!(!number_literals_finite("$[?(@.a == 1.e400)]"));
    assert!(!number_literals_finite("$[?(@.a == -NaN)]"));
    assert!(!number_literals_finite("$[?(@.a == -Infinity)]"));
    let long = format!("$[?(@.a == {})]", "9".repeat(400));
    assert!(!number_literals_finite(&long));
    let padded = format!("$[?(@.a == {}1)]", "0".repeat(400));
    assert!(number_literals_finite(&padded));
}

#[test]
fn new_object_holds_the_value() {
    assert!(same(&new_object("key", s("v")), &obj(vec![("key", s("v"))])));
}

#[test]
fn merge_prefers_second() {
    let a = obj(vec![("x", s("1")), ("y", s("2"))]);
    let b = obj(vec![("y", s("3"))]);
    let m = merge_objects(&a, &b).unwrap();
    assert!(same(&m, &obj(vec![("x", s("1")), ("y", s("3"))])));
    assert!(merge_objects(&a, &s("no")).is_none());
}

#[test]
fn each_splits_arrays() {
    let out = each(Json::Array(vec![s("a"), s("b")]));
    assert_eq!(out.len(), 2);
    assert!(same(&out[1], &s("b")));
    let single = each(s("x"));
    assert_eq!(single.len(), 1);
}

#[test]
fn includes_compares_as_json() {
    let array = vec![s("a"), obj(vec![("k", Json::Number("1".to_string()))])];
    assert!(includes(&array, &obj(vec![("k", Json::Number("1".to_string()))])));
    assert!(!includes(&array, &s("b")));
}

#[test]
fn string_fields() {
    let v = obj(vec![("sub", s("u1")), ("n", Json::Number("3".to_string())), ("g", Json::Array(vec![s("a"), s("b")]))]);
    assert_eq!(str_field(&v, "sub"), "u1");
    assert_eq!(str_field(&v, "n"), "");
    assert_eq!(str_field(&v, "missing"), "");
    assert_eq!(string_list(json_get(&v, "g").unwrap()), Some(vec!["a".to_string(), "b".to_string()]));
    assert_eq!(string_list(&s("x")), None);
}

#[test]
fn simplify_unwraps_values() {
    let v = obj(vec![("a", obj(vec![("$value", s("1"))])), ("b", Json::Array(vec![obj(vec![("$value", s("2"))])]))]);
    let expected = obj(vec![("a", s("1")), ("b", Json::Array(vec![s("2")]))]);
    assert!(same(&simplify_value(&v), &expected));
}

#[test]
fn grouping_leaves_parsed_values_alone() {
    let v = obj(vec![("a", s("1")), ("b", Json::Array(vec![s("2"), s("3")]))]);
    assert!(same(&group_same_elements(&v), &v));
}

#[test]
fn xml_root_and_wrapping() {
    assert_eq!(root_element_name("<?xml version=\"1.0\"?><note><to>x</to></note>"), Some("note".to_string()));
    assert_eq!(root_element_name("   "), None);
    let parsed = obj(vec![("to", obj(vec![("$value", s("x"))]))]);
    let out = xml_json(Some("note".to_string()), &parsed);
    assert!(same(&out, &obj(vec![("note", obj(vec![("to", s("x"))]))])));
    let bare = xml_json(None, &parsed);
    assert!(same(&bare, &obj(vec![("to", s("x"))])));
    assert_eq!(wrap_in_root("<a>1</a>"), "<root><a>1</a></root>");
}

#[test]
fn json_texts_parse_as_serde_json_reads_them() {
    let v = parse_json("{\"a\":[1,2.5,\"x\",null,true],\"b\":{\"c\":-3},\"a\":{}}").unwrap();
    assert!(same(&v, &obj(vec![("a", obj(vec![])), ("b", obj(vec![("c", Json::Number("-3".to_string()))]))])));
    let arr = parse_json("[1E2, \"\\u00e9\", [false]]").unwrap();
    assert!(same(
        &arr,
        &Json::Array(vec![Json::Number("100.0".to_string()), s("\u{e9}"), Json::Array(vec![Json::Bool(false)])])
    ));
    assert!(parse_json("{").err().unwrap().starts_with("EOF"));
    assert!(parse_json("[1,]").is_err());
}

#[test]
fn serialize_by_content_type() {
    assert!(same(&serialize("{\"a\":1}", "application/json").unwrap(), &obj(vec![("a", Json::Number("1".to_string()))])));
    assert!(serialize("{", "application/json").err().unwrap().starts_with("Error parsing JSON content: "));
    assert!(same(&serialize("x=1", "application/x-www-form-urlencoded").unwrap(), &obj(vec![("x", s("1"))])));
    assert!(same(&serialize("hi", "text/plain").unwrap(), &s("hi")));
    assert_eq!(serialize("", "image/png").err(), Some("Unsupported content type: image/png".to_string()));
    assert!(serialize("<<<", "application/xml").err().unwrap().starts_with("Error parsing XML content: "));
    // serde_xml_rs either reads the fields (an object comes back) or fails twice (the second
    // error is reported).
    match serialize("<a><b>1</b></a>", "application/xml") {
        Ok(v) => assert!(matches!(v, Json::Object(_))),
        Err(m) => assert!(m.starts_with("Error parsing XML content: ")),
    }
}

#[test]
fn xml_texts_to_json() {
    match xml_to_json("<note><to>x</to></note>") {
        Ok(out) => assert!(json_get(&out, "note").is_some()),
        Err(m) => assert!(!m.is_empty()),
    }
    assert!(xml_to_json("<note>").is_err());
}

#[test]
fn selectable_paths() {
    assert!(path_selectable("$.a[0:2]"));
    assert!(path_selectable("$.a[1:5:2]"));
    assert!(path_selectable("$[?(@.price < 10)].name"));
    assert!(!path_selectable("$.a[::0]"));
    assert!(!path_selectable("$.a[1:5: +00]"));
    assert!(!path_selectable("$[?(@.a[0,1] == 1)]"));
    assert!(!path_selectable("$[?(@[0:1] == 1)]"));
    assert!(!path_selectable("$[?(@.a == 1e999)]"));
    let input = "{\"a\":[1,2,3]}";
    assert_eq!(select(input, "$.a[1:3:1]"), Ok("2".to_string()));
    assert_eq!(
        select(input, "$.a[0:3:0]"),
        Err("Error selecting value by path: the path holds a form that the selector cannot evaluate".to_string())
    );
}
