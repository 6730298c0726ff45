use rushdown::text::Value;
use rushdown::util::StringMap;
use rushdown_fenced_div::bytes::ByteClass;
use rushdown_fenced_div::bytes::{byte_in_class, skip_run_of};
use rushdown_fenced_div::closer::closes_fence;
use rushdown_fenced_div::opener::{fence_length, only_trailer_after};
use rushdown_fenced_div::{
    close_fenced_div, continue_fenced_div, open_fenced_div, parse_opening_fence,
    render_fenced_div, render_fenced_div_node, Continuation, FencedDiv,
    FencedDivHtmlRendererOptions, OpenCodeBlock,
};

/// Opens the first line of `input` (up to and including its line feed) while
/// `open_depth` fenced divs are open.
fn open_first_line(input: &str, open_depth: usize) -> Option<rushdown_fenced_div::FencedDivOpening> {
    let stop = input.find('\n').map(|i| i + 1).unwrap_or(input.len());
    open_fenced_div(input, 0, stop, 0, open_depth)
}

/// The class of a div opened by a shorthand class: the only attribute, a
/// span of the source.
fn shorthand_class(input: &str) -> Option<String> {
    let attributes = open_first_line(input, 0)?.attributes;
    assert_eq!(attributes.len(), 1);
    match attributes.get("class")? {
        Value::Index(span) => Some(input[span.start()..span.stop()].to_string()),
        _ => None,
    }
}

fn attribute_list(input: &str) -> Option<StringMap<Value>> {
    Some(open_first_line(input, 0)?.attributes)
}

fn class_span(attributes: &StringMap<Value>) -> Option<(usize, usize)> {
    match attributes.get("class")? {
        Value::Index(span) => Some((span.start(), span.stop())),
        _ => None,
    }
}

fn attribute(list: &StringMap<Value>, name: &str, source: &str) -> String {
    list.get(name).unwrap().str(source).to_string()
}

#[test]
fn shorthand_class_opens_a_div() {
    let input = "::: note\ninside\n:::\n";
    let opening = open_first_line(input, 0).unwrap();
    assert_eq!(opening.div.depth(), 1);
    assert_eq!(shorthand_class(input), Some("note".to_string()));
}

#[test]
fn attached_shorthand_class_opens_a_div() {
    assert_eq!(shorthand_class(":::note\ninside\n:::\n"), Some("note".to_string()));
}

#[test]
fn attribute_list_opens_a_div() {
    let input = "::: {.note #tip data-kind=\"callout\" data-level=2}\ninside\n:::\n";
    let list = attribute_list(input).unwrap();
    assert_eq!(attribute(&list, "class", input), "note");
    assert_eq!(attribute(&list, "id", input), "tip");
    assert_eq!(attribute(&list, "data-kind", input), "callout");
    assert_eq!(attribute(&list, "data-level", input), "2");
}

#[test]
fn shorthand_class_with_trailing_colons_opens_a_div() {
    assert_eq!(shorthand_class("::: note ::::::\ninside\n:::\n"), Some("note".to_string()));
    assert_eq!(shorthand_class("::: Warning ::::::"), Some("Warning".to_string()));
}

#[test]
fn attribute_list_with_trailing_colons_opens_a_div() {
    let input = "::: {.note #tip data-kind=\"callout\"} :::\ninside\n:::\n";
    let list = attribute_list(input).unwrap();
    assert_eq!(attribute(&list, "class", input), "note");
    assert_eq!(attribute(&list, "id", input), "tip");
    assert_eq!(attribute(&list, "data-kind", input), "callout");
}

#[test]
fn attribute_list_values_are_resolved() {
    let input =
        "::: {.note .warning #tip data-kind=\"callout\" title=\"Fish &amp; Chips\"}\ninside\n:::\n";
    let list = attribute_list(input).unwrap();
    assert_eq!(attribute(&list, "id", input), "tip");
    assert_eq!(attribute(&list, "class", input), "note warning");
    assert_eq!(attribute(&list, "data-kind", input), "callout");
    assert_eq!(attribute(&list, "title", input), "Fish & Chips");
}

#[test]
fn attached_trailing_colons_belong_to_the_class() {
    assert_eq!(shorthand_class(":::note:::::\ninside\n:::\n"), Some("note:::::".to_string()));
}

#[test]
fn nested_div_is_one_deeper() {
    let outer = open_first_line("::: Warning ::::::\n", 0).unwrap();
    assert_eq!(outer.div.depth(), 1);
    let inner = open_first_line("::: Danger\n", outer.div.depth()).unwrap();
    assert_eq!(inner.div.depth(), 2);
    let closer: &[u8] = b"::::::::::::::::::\n";
    assert_eq!(
        continue_fenced_div(&inner.div, OpenCodeBlock::NoCodeBlock, Some(b":::\n"), 2),
        Continuation::CloseAtFence
    );
    let open_depth = close_fenced_div(2);
    assert_eq!(open_depth, 1);
    assert_eq!(
        continue_fenced_div(&outer.div, OpenCodeBlock::NoCodeBlock, Some(closer), open_depth),
        Continuation::CloseAtFence
    );
    assert_eq!(close_fenced_div(open_depth), 0);
}

#[test]
fn same_length_closer_closes_the_innermost_div_first() {
    let outer = FencedDiv::new(1);
    let inner = FencedDiv::new(2);
    assert_eq!(continue_fenced_div(&outer, OpenCodeBlock::NoCodeBlock, Some(b":::\n"), 2), Continuation::KeepOpen);
    assert_eq!(continue_fenced_div(&inner, OpenCodeBlock::NoCodeBlock, Some(b":::\n"), 2), Continuation::CloseAtFence);
}

#[test]
fn content_lines_keep_the_div_open() {
    let div = FencedDiv::new(1);
    assert_eq!(continue_fenced_div(&div, OpenCodeBlock::NoCodeBlock, Some(b"*emphasis*\n"), 1), Continuation::KeepOpen);
    assert_eq!(continue_fenced_div(&div, OpenCodeBlock::NoCodeBlock, Some(b"# Title\n"), 1), Continuation::KeepOpen);
}

#[test]
fn invalid_attribute_list_opens_nothing() {
    assert!(open_first_line("::: {not valid\ntext\n", 0).is_none());
}

#[test]
fn indented_opener_opens_nothing() {
    let input = " ::: note\ninside\n:::\n";
    assert!(open_first_line(input, 0).is_none());
    // The same line with its indentation taken as padding.
    assert!(open_fenced_div(input, 1, 10, 1, 0).is_none());
}

#[test]
fn shorthand_class_followed_by_attribute_list_opens_nothing() {
    assert!(open_first_line("::: note {.tip #abc data-kind=\"callout\"}\ntext\n:::\n", 0).is_none());
}

#[test]
fn attached_shorthand_class_followed_by_attribute_list_opens_nothing() {
    assert!(open_first_line(":::node {#abc}\ntext\n:::\n", 0).is_none());
}

#[test]
fn two_shorthand_classes_open_nothing() {
    assert!(open_first_line("::: note warning\ntext\n", 0).is_none());
}

#[test]
fn short_fences_and_bare_fences_open_nothing() {
    assert!(open_first_line(":: note\n", 0).is_none());
    assert!(open_first_line(":::\n", 0).is_none());
    assert!(open_first_line("::: \n", 0).is_none());
    assert!(open_first_line(":: :::\n", 0).is_none());
    assert!(open_first_line("", 0).is_none());
}

#[test]
fn shorter_closing_fence_closes_the_div() {
    let div = open_first_line(":::: note\nalpha\n:::\nbeta\n::::\n", 0).unwrap().div;
    assert_eq!(continue_fenced_div(&div, OpenCodeBlock::NoCodeBlock, Some(b"alpha\n"), 1), Continuation::KeepOpen);
    assert_eq!(continue_fenced_div(&div, OpenCodeBlock::NoCodeBlock, Some(b":::\n"), 1), Continuation::CloseAtFence);
}

#[test]
fn indented_closing_fence_is_content() {
    let div = FencedDiv::new(1);
    assert_eq!(continue_fenced_div(&div, OpenCodeBlock::NoCodeBlock, Some(b" :::\n"), 1), Continuation::KeepOpen);
}

#[test]
fn unclosed_div_closes_at_the_end_of_input() {
    let div = FencedDiv::new(1);
    assert_eq!(continue_fenced_div(&div, OpenCodeBlock::NoCodeBlock, None, 1), Continuation::CloseAtEndOfInput);
}

#[test]
fn closing_fence_with_trailing_text_is_not_a_closer() {
    let div = FencedDiv::new(1);
    let line = "::: nope\n";
    assert_eq!(continue_fenced_div(&div, OpenCodeBlock::NoCodeBlock, Some(line.as_bytes()), 1), Continuation::KeepOpen);
    let inner = open_first_line(line, 1).unwrap();
    assert_eq!(inner.div.depth(), 2);
}

#[test]
fn code_block_contents_do_not_close_the_div() {
    let div = FencedDiv::new(1);
    assert_eq!(continue_fenced_div(&div, OpenCodeBlock::Fenced, Some(b":::\n"), 1), Continuation::KeepOpen);
    assert_eq!(continue_fenced_div(&div, OpenCodeBlock::Fenced, None, 1), Continuation::KeepOpen);
    assert_eq!(continue_fenced_div(&div, OpenCodeBlock::NoCodeBlock, Some(b"    :::\n"), 1), Continuation::KeepOpen);
}

#[test]
fn closing_fence_allows_trailing_ascii_whitespace_only() {
    assert!(closes_fence(b":::"));
    assert!(closes_fence(b":::::: \t\r\n"));
    assert!(!closes_fence(b"::\n"));
    assert!(!closes_fence(b":::\x0b\n"));
    assert!(!closes_fence(b"::: x\n"));
}

#[test]
fn colons_after_the_fence_and_a_space_are_a_class_name() {
    assert_eq!(shorthand_class("::: :::\n"), Some(":::".to_string()));
}

#[test]
fn vertical_tab_after_a_fence_is_a_class_name_and_no_closer() {
    let input = ":::\x0b\n";
    assert_eq!(shorthand_class(input), Some("\x0b".to_string()));
    assert!(!closes_fence(input.as_bytes()));
}

#[test]
fn form_feed_after_a_fence_both_closes_and_opens() {
    let input = ":::\x0c\n";
    assert!(closes_fence(input.as_bytes()));
    assert_eq!(shorthand_class(input), Some("\x0c".to_string()));
}

#[test]
fn closing_restores_the_depth_and_never_goes_below_zero() {
    let opening = open_first_line("::: note\n", 4).unwrap();
    assert_eq!(opening.div.depth(), 5);
    assert_eq!(close_fenced_div(opening.div.depth()), 4);
    assert_eq!(close_fenced_div(0), 0);
}

#[test]
fn fence_length_counts_leading_colons() {
    assert_eq!(fence_length(b"::::: x"), 5);
    assert_eq!(fence_length(b" :::"), 0);
    assert_eq!(fence_length(b""), 0);
}

#[test]
fn payload_parse_starts_after_the_fence() {
    let input = "::: note :::\n";
    let attributes = parse_opening_fence(input, 3, input.len()).unwrap();
    assert_eq!(class_span(&attributes), Some((4, 8)));
    assert!(parse_opening_fence(input, 3, 8).is_some());
    assert!(parse_opening_fence(input, 12, input.len()).is_none());
    // Colons after a space are a class name of their own.
    let attributes = parse_opening_fence(input, 8, input.len()).unwrap();
    assert_eq!(class_span(&attributes), Some((9, 12)));
}

#[test]
fn trailer_is_spaces_colons_spaces() {
    let line = "x  :::  \n";
    assert!(only_trailer_after(line, 1, line.len()));
    assert!(!only_trailer_after(line, 0, line.len()));
    assert!(!only_trailer_after("x :: : \n", 1, 8));
}

#[test]
fn class_name_bytes_follow_rushdown() {
    for b in [b'a', b'Z', b'0', b'_', b'-', b':', b'.', 0xc3u8, 0x0b, 0x0c] {
        assert!(byte_in_class(b, ByteClass::ClassName), "{b}");
    }
    for b in [b' ', b'\t', b'\n', b'{', b'}', b'#', b'!', b'~'] {
        assert!(!byte_in_class(b, ByteClass::ClassName), "{b}");
    }
    assert!(byte_in_class(b'\r', ByteClass::Space));
    assert!(!byte_in_class(0x0b, ByteClass::Space));
    assert!(!byte_in_class(0x0c, ByteClass::Space));
    assert_eq!(skip_run_of(b"ab-c d", 0, 6, ByteClass::ClassName), 4);
}

#[test]
fn renders_open_and_close_tags() {
    assert_eq!(render_fenced_div(true, " class=\"note\""), "<div class=\"note\">");
    assert_eq!(render_fenced_div(true, ""), "<div>");
    assert_eq!(render_fenced_div(false, " class=\"note\""), "</div>");
}

#[test]
fn renders_a_div_node_with_its_attributes() {
    let input = "::: {.note #tip data-kind=\"callout\"} :::\ninside\n:::\n";
    let list = attribute_list(input).unwrap();
    let open = render_fenced_div_node(true, input, &list);
    assert_eq!(open, "<div class=\"note\" id=\"tip\" data-kind=\"callout\">");
    let close = render_fenced_div_node(false, input, &list);
    assert_eq!(close, "</div>");
}

#[test]
fn renders_escaped_attribute_values() {
    let input = "::: {title=\"a<b\"}\n";
    let list = attribute_list(input).unwrap();
    let open = render_fenced_div_node(true, input, &list);
    assert_eq!(open, "<div title=\"a&lt;b\">");
}

#[test]
fn renderer_options_are_a_plain_value() {
    let options = FencedDivHtmlRendererOptions::default();
    let copy = options;
    assert_eq!(format!("{:?}", copy), "FencedDivHtmlRendererOptions");
}

#[test]
fn indented_code_block_ends_at_a_closing_fence() {
    let div = FencedDiv::new(1);
    assert_eq!(
        continue_fenced_div(&div, OpenCodeBlock::Indented, Some(b":::\n"), 1),
        Continuation::CloseAtFence
    );
    assert_eq!(
        continue_fenced_div(&div, OpenCodeBlock::Indented, Some(b"    :::\n"), 1),
        Continuation::KeepOpen
    );
    assert_eq!(
        continue_fenced_div(&div, OpenCodeBlock::Fenced, Some(b":::\n"), 1),
        Continuation::KeepOpen
    );
}

#[test]
fn renders_the_div_a_shorthand_class_opens() {
    let input = "::: note\ninside\n:::\n";
    let opening = open_first_line(input, 0).unwrap();
    assert_eq!(render_fenced_div_node(true, input, &opening.attributes), "<div class=\"note\">");
}

#[test]
fn renders_unquoted_values_quoted_in_source_order() {
    let input = "::: {.note #tip data-kind=\"callout\" data-level=2}\ninside\n:::\n";
    let list = attribute_list(input).unwrap();
    assert_eq!(
        render_fenced_div_node(true, input, &list),
        "<div class=\"note\" id=\"tip\" data-kind=\"callout\" data-level=\"2\">"
    );
}

#[test]
fn braces_inside_a_quoted_value_stay_in_the_value() {
    let input = "::: {title=\"{.x}\"}\n";
    let list = attribute_list(input).unwrap();
    assert_eq!(list.len(), 1);
    assert_eq!(attribute(&list, "title", input), "{.x}");
    assert!(list.get("class").is_none());
}
