//! HTML for fenced divs.

use vstd::prelude::*;
use crate::attributes::{attribute_entries, spans_within, AttributeValue};
use vstd::string::{StringExecFns, StringSliceAdditionalSpecFns};
use vstd::utf8::{decode_utf8, encode_utf8};

verus! {

/// Options of the fenced div HTML renderer (there are none yet).
#[derive(Debug, Clone, Copy, Default)]
pub struct FencedDivHtmlRendererOptions;

/// The HTML a fenced div renders to on entering it (its open tag, with the
/// already rendered attributes) and on leaving it (its close tag).
pub open spec fn div_html(entering: bool, attributes_html: Seq<char>) -> Seq<char> {
    if entering {
        seq!['<', 'd', 'i', 'v'] + attributes_html + seq!['>']
    } else {
        seq!['<', '/', 'd', 'i', 'v', '>']
    }
}

/// Renders the open tag of a fenced div when `entering`, its close tag
/// otherwise.
pub fn render_fenced_div(entering: bool, attributes_html: &str) -> (html: String)
    ensures
        html@ == div_html(entering, attributes_html@),
{
    proof {
        reveal_strlit("<div");
        reveal_strlit(">");
        reveal_strlit("</div>");
    }
    if entering {
        let mut html = String::from_str("<div");
        html.append(attributes_html);
        html.append(">");
        html
    } else {
        String::from_str("</div>")
    }
}

/// A character as rushdown's HTML escaping writes it: `"`, `&`, `<` and `>`
/// as entities, NUL as the replacement character, anything else as itself.
pub open spec fn escape_html_char(c: char) -> Seq<char> {
    if c == '"' {
        seq!['&', 'q', 'u', 'o', 't', ';']
    } else if c == '&' {
        seq!['&', 'a', 'm', 'p', ';']
    } else if c == '<' {
        seq!['&', 'l', 't', ';']
    } else if c == '>' {
        seq!['&', 'g', 't', ';']
    } else if c == '\0' {
        seq!['\u{FFFD}']
    } else {
        seq![c]
    }
}

/// Text with every character escaped.
pub open spec fn escape_html(text: Seq<char>) -> Seq<char>
    decreases text.len(),
{
    if text.len() == 0 {
        Seq::empty()
    } else {
        escape_html(text.drop_last()) + escape_html_char(text.last())
    }
}

/// The text of an attribute value: the characters of its source span, or
/// its own text.
pub open spec fn value_text(source: Seq<char>, value: AttributeValue) -> Seq<char> {
    match value {
        AttributeValue::Span { start, stop } => decode_utf8(
            encode_utf8(source).subrange(start as int, stop as int),
        ),
        AttributeValue::Text(text) => text,
    }
}

/// Attributes as rushdown renders them in HTML: each, in order, as a space,
/// its name, `="`, its escaped value and `"`.
pub open spec fn rendered_attributes(
    source: Seq<char>,
    entries: Seq<(Seq<char>, AttributeValue)>,
) -> Seq<char>
    decreases entries.len(),
{
    if entries.len() == 0 {
        Seq::empty()
    } else {
        let (name, value) = entries.last();
        rendered_attributes(source, entries.drop_last()) + seq![' '] + name + seq!['=', '"']
            + escape_html(value_text(source, value)) + seq!['"']
    }
}

/// Runs `rushdown::renderer::html::render_attributes` into a fresh string,
/// with no filter on the attribute names.
///
/// Trusted: the text is each attribute, in order, as ` name="value"` with the
/// value's bytes HTML-escaped, as the function's loop and `escape_html` show;
/// writing into a `String` cannot fail. Every span value must lie inside
/// `source` on character boundaries, or the slicing would panic.
#[verifier::external_body]
fn render_attributes_html(
    source: &str,
    attributes: &rushdown::util::StringMap<rushdown::text::Value>,
) -> (html: Option<String>)
    requires
        spans_within(
            attribute_entries(*attributes),
            source.spec_bytes(),
            0,
            source.spec_bytes().len() as int,
        ),
    ensures
        html is Some,
        html matches Some(h) ==> h@ == rendered_attributes(source@, attribute_entries(*attributes)),
{
    let mut html = String::new();
    match rushdown::renderer::html::render_attributes(&mut html, source, attributes, None) {
        Ok(()) => Some(html),
        Err(_) => None,
    }
}

/// Renders a fenced div node: on entering, `<div`, its attributes as rushdown
/// renders them, and `>`; on leaving, `</div>`.
pub fn render_fenced_div_node(
    entering: bool,
    source: &str,
    attributes: &rushdown::util::StringMap<rushdown::text::Value>,
) -> (html: String)
    requires
        entering ==> spans_within(
            attribute_entries(*attributes),
            source.spec_bytes(),
            0,
            source.spec_bytes().len() as int,
        ),
    ensures
        html@ == div_html(entering, rendered_attributes(source@, attribute_entries(*attributes))),
{
    if !entering {
        return render_fenced_div(false, "");
    }
    match render_attributes_html(source, attributes) {
        Some(attributes_html) => render_fenced_div(true, attributes_html.as_str()),
        None => render_fenced_div(true, ""),
    }
}

} // verus!
