use vstd::prelude::*;

use crate::json::{Json, JsonValue, group_same_elements, json_view, json_wf, new_object, simplified, simplify_value};
use crate::json_text::{json_parsing, parse_json};

verus! {

/// The kinds of XML event that finding the root element tells apart.
pub enum XmlEventKind {
    /// The start of an element, with its local name.
    Start(String),
    /// The end of the document.
    End,
    /// A parse error.
    Failed,
    /// Any other event.
    Other,
}

/// [`XmlEventKind`] as an abstract value.
pub enum XmlEventView {
    Start(Seq<char>),
    End,
    Failed,
    Other,
}

/// An event kind as an abstract value.
pub open spec fn event_view(e: XmlEventKind) -> XmlEventView {
    match e {
        XmlEventKind::Start(n) => XmlEventView::Start(n@),
        XmlEventKind::End => XmlEventView::End,
        XmlEventKind::Failed => XmlEventView::Failed,
        XmlEventKind::Other => XmlEventView::Other,
    }
}

/// Event kinds as abstract values.
pub open spec fn events_view(es: Seq<XmlEventKind>) -> Seq<XmlEventView> {
    es.map_values(|e: XmlEventKind| event_view(e))
}

/// The events that the xml crate's `EventReader` yields for a text, read with the given
/// whitespace trimming, up to and including the end of the document or the first error.
pub uninterp spec fn xml_events(text: Seq<char>, trim_whitespace: bool) -> Seq<XmlEventView>;

/// Reads a text with the xml crate's `EventReader` and keeps the kind of each event (the
/// local name of a start element). Claims only that the list is the named result.
#[verifier::external_body]
fn read_xml_events(text: &str, trim_whitespace: bool) -> (r: Vec<XmlEventKind>)
    ensures
        events_view(r@) == xml_events(text@, trim_whitespace),
{
    let config = xml::ParserConfig::new().trim_whitespace(trim_whitespace);
    xml::EventReader::new_with_config(text.as_bytes(), config).into_iter().map(|e| match e {
        Ok(xml::reader::XmlEvent::StartElement { name, .. }) => XmlEventKind::Start(name.local_name),
        Ok(xml::reader::XmlEvent::EndDocument) => XmlEventKind::End,
        Ok(_) => XmlEventKind::Other,
        Err(_) => XmlEventKind::Failed,
    }).collect()
}

/// The name of the first element that starts before the document ends or an error comes.
pub open spec fn root_name(events: Seq<XmlEventView>) -> Option<Seq<char>>
    decreases events.len(),
{
    if events.len() == 0 {
        None
    } else {
        match events[0] {
            XmlEventView::Start(n) => Some(n),
            XmlEventView::End => None,
            XmlEventView::Failed => None,
            XmlEventView::Other => root_name(events.drop_first()),
        }
    }
}

/// The name of the root element of an XML text, read with whitespace trimmed.
pub fn root_element_name(xml: &str) -> (r: Option<String>)
    ensures
        match r {
            Some(n) => root_name(xml_events(xml@, true)) == Some(n@),
            None => root_name(xml_events(xml@, true)) is None,
        },
{
    let events = read_xml_events(xml, true);
    let ghost all = events_view(events@);
    let mut i: usize = 0;
    assert(all.skip(0) =~= all);
    while i < events.len()
        invariant
            all == events_view(events@),
            all == xml_events(xml@, true),
            i <= events.len(),
            root_name(all) == root_name(all.skip(i as int)),
        decreases events.len() - i,
    {
        let ghost rest = all.skip(i as int);
        assert(rest[0] == event_view(events@[i as int]));
        assert(rest.drop_first() =~= all.skip(i + 1));
        match &events[i] {
            XmlEventKind::Start(n) => {
                return Some(n.clone());
            },
            XmlEventKind::End => {
                return None;
            },
            XmlEventKind::Failed => {
                return None;
            },
            XmlEventKind::Other => {},
        }
        i = i + 1;
    }
    assert(all.skip(events.len() as int) =~= Seq::<XmlEventView>::empty());
    None
}

/// What the xml-to-json operation sends for parsed XML: the value simplified (and grouped,
/// which leaves a parsed value as it is), under the root element's name where there is one.
pub open spec fn xml_json_spec(root: Option<Seq<char>>, parsed: Json) -> JsonValue {
    match root {
        Some(name) => JsonValue::Object(Map::empty().insert(name, simplified(parsed))),
        None => simplified(parsed),
    }
}

/// The xml-to-json operation's answer for a text, given its root element's name and the value
/// that parsing the text gave.
pub fn xml_json(root: Option<String>, parsed: &Json) -> (out: Json)
    requires
        json_wf(*parsed),
    ensures
        json_view(out) == xml_json_spec(match root { Some(n) => Some(n@), None => None }, *parsed),
{
    let simple = simplify_value(parsed);
    let grouped = group_same_elements(&simple);
    match root {
        Some(name) => new_object(name.as_str(), grouped),
        None => grouped,
    }
}

/// XML content wrapped in a `root` element, as the serialize operation retries a text that
/// does not parse as a map on its own.
pub fn wrap_in_root(content: &str) -> (out: String)
    ensures
        out@ == "<root>"@ + content@ + "</root>"@,
{
    let mut out = String::from_str("<root>");
    out.append(content);
    out.append("</root>");
    out
}

/// What serde_xml_rs reads from an XML text as a `serde_json::Value`; or the error's message.
pub uninterp spec fn xml_value_parsing(text: Seq<char>) -> Result<JsonValue, Seq<char>>;

/// Reads an XML text with `serde_xml_rs::from_str` into a `serde_json::Value` and writes it
/// back as JSON text. Claims that the outcome is the named result and that serde_json reads
/// the text it writes for a value back as that value.
#[verifier::external_body]
fn xml_value_text(xml: &str) -> (r: Result<String, String>)
    ensures
        match r {
            Err(e) => xml_value_parsing(xml@) == Err::<JsonValue, Seq<char>>(e@),
            Ok(s) => xml_value_parsing(xml@) matches Ok(v) && json_parsing(s@) == Ok::<JsonValue, Seq<char>>(v),
        },
{
    let value: serde_json::Value = serde_xml_rs::from_str(xml).map_err(|e| e.to_string())?;
    Ok(value.to_string())
}

/// The xml-to-json operation: the value that serde_xml_rs reads from the text, simplified,
/// under the root element's name where there is one; or the error's message.
pub fn xml_to_json(xml: &str) -> (r: Result<Json, String>)
    ensures
        match xml_value_parsing(xml@) {
            Err(e) => r matches Err(m) && m@ == e,
            Ok(v) => r matches Ok(j) && exists|parsed: Json| #![auto] json_view(parsed) == v && json_wf(parsed)
                && json_view(j) == xml_json_spec(root_name(xml_events(xml@, true)), parsed),
        },
{
    let root = root_element_name(xml);
    let text = match xml_value_text(xml) {
        Ok(t) => t,
        Err(e) => {
            return Err(e);
        },
    };
    let parsed = match parse_json(text.as_str()) {
        Ok(p) => p,
        Err(e) => {
            return Err(e);
        },
    };
    let out = xml_json(root, &parsed);
    assert(json_view(parsed) == xml_value_parsing(xml@)->Ok_0 && json_wf(parsed));
    Ok(out)
}

} // verus!
