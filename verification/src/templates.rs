use vstd::prelude::*;

use crate::text::occurs_at;

verus! {

/// The message of the error that the liquid crate gives when it parses a template with its
/// standard library, or `None` when the template parses.
pub uninterp spec fn liquid_parse_error(template: Seq<char>) -> Option<Seq<char>>;

/// Whether a text holds no liquid markup: no `{{` that would open an object and no `{%` that
/// would open a tag. liquid's grammar reads such a text as one raw element.
pub open spec fn holds_no_markup(t: Seq<char>) -> bool {
    forall|i: int| !#[trigger] occurs_at(t, "{{"@, i) && !occurs_at(t, "{%"@, i)
}

/// Parses a template with the liquid crate (`ParserBuilder::with_stdlib`) and hands back the
/// error's message where it fails. Claims that the outcome is the named result, and, as
/// liquid's grammar shows (a file is a sequence of elements, and any run of text that opens no
/// object or tag is a raw element), that a template without markup parses.
#[verifier::external_body]
fn liquid_error(template: &str) -> (r: Option<String>)
    ensures
        r is Some == liquid_parse_error(template@) is Some,
        r is Some ==> r.unwrap()@ == liquid_parse_error(template@).unwrap(),
        holds_no_markup(template@) ==> r is None,
{
    match liquid::ParserBuilder::with_stdlib().build() {
        Ok(parser) => parser.parse(template).err().map(|e| e.to_string()),
        Err(e) => Some(e.to_string()),
    }
}

/// Renders a template that parses with the liquid crate, its globals read from a JSON object's
/// text; the error's message where rendering fails. In general nothing is claimed of the
/// result: the standard library's date filter reads the clock. What is claimed, as liquid's
/// grammar and its raw element show, is that a template without markup renders to itself, and
/// does so with the empty object for globals (which serde_json reads and liquid takes as an
/// object). The panics in the crate's parse and render path are checks of its own grammar and
/// of the UTF-8 it writes, which it states no input reaches.
#[verifier::external_body]
fn liquid_render(template: &str, globals_json: &str) -> (r: Result<String, String>)
    requires
        liquid_parse_error(template@) is None,
    ensures
        holds_no_markup(template@) ==> (r matches Ok(s) ==> s@ == template@),
        holds_no_markup(template@) && globals_json@ == "{}"@ ==> r is Ok,
{
    let parser = liquid::ParserBuilder::with_stdlib().build().map_err(|e| e.to_string())?;
    let parsed = parser.parse(template).map_err(|e| e.to_string())?;
    let value: serde_json::Value = serde_json::from_str(globals_json).map_err(|e| e.to_string())?;
    let globals = liquid::to_object(&value).map_err(|e| e.to_string())?;
    parsed.render(&globals).map_err(|e| e.to_string())
}

/// The error that the liquid operations give for a template that does not parse.
pub open spec fn invalid_template_message(error: Seq<char>) -> Seq<char> {
    "Invalid template string: "@ + error
}

/// The prefix of the error that the liquid operations give when rendering fails.
pub open spec fn render_error_prefix() -> Seq<char> {
    "Error rendering template: "@
}

/// A liquid operation: the template rendered with the globals of a JSON object's text; for a
/// template that does not parse, `Invalid template string: <reason>`; where rendering fails,
/// `Error rendering template: <reason>`. The rendering comes back whole: a template without
/// markup renders to itself, line breaks and all, and does so with empty globals.
pub fn render_liquid(template: &str, globals_json: &str) -> (r: Result<String, String>)
    ensures
        holds_no_markup(template@) ==> liquid_parse_error(template@) is None && (r matches Ok(s) ==> s@ == template@),
        holds_no_markup(template@) && globals_json@ == "{}"@ ==> (r matches Ok(s) && s@ == template@),
        match liquid_parse_error(template@) {
            Some(e) => r matches Err(m) && m@ == invalid_template_message(e),
            None => r matches Err(m) ==> exists|reason: Seq<char>| m@ == render_error_prefix() + reason,
        },
{
    match liquid_error(template) {
        Some(e) => {
            let mut m = String::from_str("Invalid template string: ");
            m.append(e.as_str());
            Err(m)
        },
        None => match liquid_render(template, globals_json) {
            Ok(s) => Ok(s),
            Err(e) => {
                let mut m = String::from_str("Error rendering template: ");
                m.append(e.as_str());
                assert(m@ == render_error_prefix() + e@);
                Err(m)
            },
        },
    }
}

/// The globals that the liquid operation renders a value with: one global, `input`, holding
/// the value (given and returned as JSON text).
pub fn input_globals(value_json: &str) -> (out: String)
    ensures
        out@ == "{\"input\":"@ + value_json@ + "}"@,
{
    let mut out = String::from_str("{\"input\":");
    out.append(value_json);
    out.append("}");
    out
}

/// What serde_yaml reads from a YAML text, written back as compact JSON text; or the error's
/// message where the text is not YAML that JSON can hold.
pub uninterp spec fn yaml_as_json(text: Seq<char>) -> Result<Seq<char>, Seq<char>>;

/// Reads a YAML text with serde_yaml into a JSON value and writes that as compact JSON text.
/// Claims only that the outcome is the named result.
#[verifier::external_body]
fn yaml_json_text(text: &str) -> (r: Result<String, String>)
    ensures
        match r {
            Ok(s) => yaml_as_json(text@) == Ok::<Seq<char>, Seq<char>>(s@),
            Err(e) => yaml_as_json(text@) == Err::<Seq<char>, Seq<char>>(e@),
        },
{
    let value: serde_json::Value = serde_yaml::from_str(text).map_err(|e| e.to_string())?;
    Ok(value.to_string())
}

/// The globals that the readme generator renders a configuration with: one global, `data`,
/// holding the configuration (given and returned as JSON text).
pub fn readme_globals(data_json: &str) -> (out: String)
    ensures
        out@ == "{\"data\":"@ + data_json@ + "}"@,
{
    let mut out = String::from_str("{\"data\":");
    out.append(data_json);
    out.append("}");
    out
}

/// What the readme generator adds to a rendering error.
pub open spec fn readme_error_suffix() -> Seq<char> {
    ". If you passed a valid wick configuration, please submit it as a bug to the component's issue tracker."@
}

/// The readme generator: a component's YAML configuration rendered with a liquid template, the
/// configuration as the global `data`. Fails with the template's parse error, then with the
/// YAML error, then with `Error rendering template: <reason>` and a request to report it.
pub fn render_readme(input: &str, template: &str) -> (r: Result<String, String>)
    ensures
        match liquid_parse_error(template@) {
            Some(e) => r matches Err(m) && m@ == e,
            None => match yaml_as_json(input@) {
                Err(e) => r matches Err(m) && m@ == e,
                Ok(_) => r matches Err(m) ==> exists|reason: Seq<char>|
                    m@ == render_error_prefix() + reason + readme_error_suffix(),
            },
        },
{
    match liquid_error(template) {
        Some(e) => Err(e),
        None => match yaml_json_text(input) {
            Err(e) => Err(e),
            Ok(data) => {
                let globals = readme_globals(data.as_str());
                match liquid_render(template, globals.as_str()) {
                    Ok(s) => Ok(s),
                    Err(e) => {
                        let mut m = String::from_str("Error rendering template: ");
                        m.append(e.as_str());
                        m.append(". If you passed a valid wick configuration, please submit it as a bug to the component's issue tracker.");
                        assert(m@ == render_error_prefix() + e@ + readme_error_suffix());
                        Err(m)
                    },
                }
            },
        }
    }
}

/// The message of the error that minijinja gives when it adds a template, or `None` when the
/// template compiles.
pub uninterp spec fn jinja_template_error(template: Seq<char>) -> Option<Seq<char>>;

/// What minijinja gives when it renders a template that compiles with the value of a JSON
/// text: the output, or the error's message.
pub uninterp spec fn jinja_rendered(template: Seq<char>, data_json: Seq<char>) -> Result<Seq<char>, Seq<char>>;

/// Adds a template to a minijinja `Environment` and hands back the error's message where that
/// fails. Claims only that the outcome is the named result.
#[verifier::external_body]
fn jinja_error(template: &str) -> (r: Option<String>)
    ensures
        r is Some == jinja_template_error(template@) is Some,
        r is Some ==> r.unwrap()@ == jinja_template_error(template@).unwrap(),
{
    let mut env = minijinja::Environment::new();
    env.add_template("root", template).err().map(|e| e.to_string())
}

/// Renders a template that compiles with minijinja, the data read from a JSON text. Claims
/// only that the outcome is the named result.
#[verifier::external_body]
fn jinja_render(template: &str, data_json: &str) -> (r: Result<String, String>)
    requires
        jinja_template_error(template@) is None,
    ensures
        match r {
            Ok(s) => jinja_rendered(template@, data_json@) == Ok::<Seq<char>, Seq<char>>(s@),
            Err(e) => jinja_rendered(template@, data_json@) == Err::<Seq<char>, Seq<char>>(e@),
        },
{
    let mut env = minijinja::Environment::new();
    env.add_template("root", template).map_err(|e| e.to_string())?;
    let tpl = env.get_template("root").map_err(|e| e.to_string())?;
    let data: serde_json::Value = serde_json::from_str(data_json).map_err(|e| e.to_string())?;
    tpl.render(data).map_err(|e| e.to_string())
}

/// Why the jinja operation gives no output, where it gives up.
pub enum JinjaFailure {
    /// The configured template does not compile.
    Template(String),
    /// Rendering a value fails.
    Render(String),
}

/// The jinja operation for one value: the configured template rendered with it; where the
/// template does not compile or rendering fails, the reason.
pub fn render_jinja(template: &str, data_json: &str) -> (r: Result<String, JinjaFailure>)
    ensures
        match jinja_template_error(template@) {
            Some(e) => r matches Err(JinjaFailure::Template(m)) && m@ == e,
            None => match jinja_rendered(template@, data_json@) {
                Ok(s) => r matches Ok(o) && o@ == s,
                Err(e) => r matches Err(JinjaFailure::Render(m)) && m@ == e,
            },
        },
{
    match jinja_error(template) {
        Some(e) => Err(JinjaFailure::Template(e)),
        None => match jinja_render(template, data_json) {
            Ok(s) => Ok(s),
            Err(e) => Err(JinjaFailure::Render(e)),
        },
    }
}

/// What serde_json reads from a text as a `serde_json::Value`: whether that value is an object,
/// or the error's message where the text is not JSON.
pub uninterp spec fn json_text_reading(text: Seq<char>) -> Result<bool, Seq<char>>;

/// The error's message of a failed outcome, `None` for a success.
pub open spec fn error_text(r: Result<String, String>) -> Option<Seq<char>> {
    match r {
        Ok(_) => None,
        Err(e) => Some(e@),
    }
}

/// The start of the message that liquid-json gives for data that is not an object.
pub open spec fn invalid_context_prefix() -> Seq<char> {
    "Invalid context passed to template. Expected a map, got "@
}

/// Renders a liquid-json template (given as JSON text) with the data of a JSON text and hands
/// back the result's JSON text, or the error's message. Both texts are read with
/// `serde_json::from_str`; where one is not JSON, its error comes back, the template's first.
/// liquid-json's source refuses data that is not an object, with a message that starts
/// `Invalid context passed to template. Expected a map, got `. Nothing is claimed of a
/// rendering: the liquid standard library's date filter reads the clock. Whether the loose
/// liquid renderer that liquid-json calls can panic on some template is not stated either:
/// nothing is claimed there.
#[verifier::external_body]
fn liquid_json_render(template_json: &str, data_json: &str) -> (r: Result<String, String>)
    ensures
        match json_text_reading(template_json@) {
            Err(e) => error_text(r) == Some(e),
            Ok(_) => match json_text_reading(data_json@) {
                Err(e) => error_text(r) == Some(e),
                Ok(object) => !object ==> (error_text(r) matches Some(m) && exists|rest: Seq<char>|
                    m == invalid_context_prefix() + rest),
            },
        },
{
    let template: serde_json::Value = serde_json::from_str(template_json).map_err(|e| e.to_string())?;
    let data: serde_json::Value = serde_json::from_str(data_json).map_err(|e| e.to_string())?;
    let rendered = liquid_json::LiquidJsonValue::from(template).render(&data).map_err(|e| e.to_string())?;
    Ok(rendered.to_string())
}

/// What the liquid-json operation sends for one value: the rendered value on the output, or
/// the error's message as an error packet.
pub enum LiquidJsonAnswer {
    Output(String),
    Error(String),
}

/// The liquid-json operation for one value, given and answered as JSON text: the rendered
/// value on the output, or the error's message as an error packet. A template or data text
/// that is not JSON answers with its parse error (the template's first); data that is not an
/// object is refused with `Invalid context passed to template. Expected a map, got ...`.
pub fn render_liquid_json(template_json: &str, data_json: &str) -> (out: LiquidJsonAnswer)
    ensures
        match json_text_reading(template_json@) {
            Err(e) => out matches LiquidJsonAnswer::Error(m) && m@ == e,
            Ok(_) => match json_text_reading(data_json@) {
                Err(e) => out matches LiquidJsonAnswer::Error(m) && m@ == e,
                Ok(object) => !object ==> (out matches LiquidJsonAnswer::Error(m) && exists|rest: Seq<char>|
                    m@ == invalid_context_prefix() + rest),
            },
        },
{
    match liquid_json_render(template_json, data_json) {
        Ok(s) => LiquidJsonAnswer::Output(s),
        Err(e) => LiquidJsonAnswer::Error(e),
    }
}

} // verus!
