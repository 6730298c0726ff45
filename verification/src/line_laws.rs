//! What the fence rules accept, stated byte by byte: which lines close a div,
//! which lines open one and with what, and what a div renders to.

use crate::attributes::{parsed_attribute_list, AttributeValue};
use crate::bytes::{
    in_class, lemma_skip_run, lemma_str_has_no_end_marker, skip_run, ByteClass, END_OF_LINE,
};
use crate::closer::{continuation, depth_after_close, is_closing_fence, Continuation, OpenCodeBlock};
use crate::opener::{fence_end, opening, opening_payload, trailer_end, OpeningPayload};
use crate::render::{div_html, escape_html, escape_html_char, rendered_attributes, value_text};
use vstd::prelude::*;
use vstd::string::StringSliceAdditionalSpecFns;

verus! {

/// A colon.
pub open spec fn colon(b: u8) -> bool {
    b == 58
}

/// Tab, line feed, carriage return or space: what rushdown skips as space.
pub open spec fn blank(b: u8) -> bool {
    b == 9 || b == 10 || b == 13 || b == 32
}

/// Space, tab, line feed, form feed or carriage return: ASCII whitespace.
pub open spec fn ascii_whitespace(b: u8) -> bool {
    b == 32 || b == 9 || b == 10 || b == 12 || b == 13
}

/// A byte of a shorthand class name: not blank, and a letter, a digit, one of
/// `_ - : .`, a control byte or a byte outside ASCII.
pub open spec fn class_name_byte(b: u8) -> bool {
    &&& !blank(b)
    &&& (b < 33 || (48 <= b && b <= 57) || (65 <= b && b <= 90) || (97 <= b && b <= 122) || b
        > 126 || b == 95 || b == 45 || b == 58 || b == 46)
}

/// `s[e..stop]` is blanks, then colons, then blanks, split at `x` and `y`.
pub open spec fn trailer_split(s: Seq<u8>, e: int, x: int, y: int, stop: int) -> bool {
    &&& e <= x <= y <= stop
    &&& forall|i: int| e <= i < x ==> blank(#[trigger] s[i])
    &&& forall|i: int| x <= i < y ==> colon(#[trigger] s[i])
    &&& forall|i: int| y <= i < stop ==> blank(#[trigger] s[i])
}

/// `s[start..k]` is a fence of at least three colons followed by blanks, and
/// the byte at `k` is no blank and does not continue the fence (a colon there
/// comes after a blank).
pub open spec fn fence_and_blanks(s: Seq<u8>, start: int, k: int) -> bool {
    &&& start + 3 <= k
    &&& colon(s[start]) && colon(s[start + 1]) && colon(s[start + 2])
    &&& forall|i: int| start <= i < k ==> colon(#[trigger] s[i]) || blank(s[i])
    &&& forall|i: int, j: int| start <= i < j < k && blank(#[trigger] s[i]) ==> !colon(#[trigger] s[j])
    &&& !blank(s[k])
    &&& colon(s[k]) ==> blank(s[k - 1])
}

/// The byte classes are rushdown's: colons, its four blanks, and class-name
/// bytes.
pub proof fn lemma_byte_classes(b: u8)
    ensures
        in_class(ByteClass::Colon, b) <==> colon(b),
        in_class(ByteClass::Space, b) <==> blank(b),
        in_class(ByteClass::ClassName, b) <==> class_name_byte(b),
{
}

/// A colon run from `i` covers exactly the colons there: every byte it passes
/// is a colon, and it stops at `stop` or before a byte that is not one.
pub proof fn lemma_colon_run(s: Seq<u8>, i: int, stop: int)
    requires
        i <= stop,
    ensures
        i <= skip_run(s, i, stop, ByteClass::Colon) <= stop,
        forall|j: int| i <= j < skip_run(s, i, stop, ByteClass::Colon) ==> colon(#[trigger] s[j]),
        skip_run(s, i, stop, ByteClass::Colon) == stop || !colon(
            s[skip_run(s, i, stop, ByteClass::Colon)],
        ),
{
    lemma_skip_run(s, i, stop, ByteClass::Colon);
}

/// A line closes a div exactly when it is three or more colons followed by
/// ASCII whitespace only: it starts with three colons, every later byte is a
/// colon or whitespace, and no colon follows whitespace.
pub proof fn lemma_closing_fence_is_colons_then_whitespace(line: Seq<u8>)
    ensures
        is_closing_fence(line) <==> {
            &&& line.len() >= 3
            &&& colon(line[0]) && colon(line[1]) && colon(line[2])
            &&& forall|i: int| 3 <= i < line.len() ==> colon(#[trigger] line[i]) || ascii_whitespace(line[i])
            &&& forall|i: int, j: int|
                3 <= i < j < line.len() && ascii_whitespace(#[trigger] line[i]) ==> !colon(
                    #[trigger] line[j],
                )
        },
{
    let n = line.len() as int;
    let f = skip_run(line, 0, n, ByteClass::Colon);
    lemma_skip_run(line, 0, n, ByteClass::Colon);
    if is_closing_fence(line) {
        assert forall|i: int| 3 <= i < n implies colon(#[trigger] line[i]) || ascii_whitespace(line[i]) by {
            if i < f {
                assert(in_class(ByteClass::Colon, line[i]));
            } else {
                assert(ascii_whitespace(line[i]));
            }
        }
        assert forall|i: int, j: int|
            3 <= i < j < n && ascii_whitespace(#[trigger] line[i]) implies !colon(#[trigger] line[j]) by {
            if i < f {
                assert(in_class(ByteClass::Colon, line[i]));
            }
            assert(ascii_whitespace(line[j]));
        }
        assert(in_class(ByteClass::Colon, line[0]));
        assert(in_class(ByteClass::Colon, line[1]));
        assert(in_class(ByteClass::Colon, line[2]));
    }
    if line.len() >= 3 && colon(line[0]) && colon(line[1]) && colon(line[2]) && (forall|i: int|
        3 <= i < line.len() ==> colon(#[trigger] line[i]) || ascii_whitespace(line[i])) && (forall|
        i: int,
        j: int,
    | 3 <= i < j < line.len() && ascii_whitespace(#[trigger] line[i]) ==> !colon(
        #[trigger] line[j],
    )) {
        if f < 3 {
            assert(colon(line[f]));
        }
        assert forall|i: int| f <= i < n implies crate::bytes::is_ascii_whitespace_byte(
            #[trigger] line[i],
        ) by {
            assert(!colon(line[f]));
            assert(ascii_whitespace(line[f]));
            if i > f {
                assert(!colon(line[i]));
            }
        }
    }
}

/// An open div stays open at every line but a closing fence at its own
/// depth, and closes at the end of the input; a blank line, a heading, a
/// paragraph line or a tilde fence never closes it. Only a fenced code block
/// keeps even a closing fence inside the div.
pub proof fn lemma_only_closing_fences_close_divs(
    code_block: OpenCodeBlock,
    line: Option<Seq<u8>>,
    div_depth: nat,
    open_depth: nat,
)
    ensures
        code_block == OpenCodeBlock::Fenced ==> continuation(code_block, line, div_depth, open_depth)
            == Continuation::KeepOpen,
        code_block != OpenCodeBlock::Fenced && line is None ==> continuation(
            code_block,
            line,
            div_depth,
            open_depth,
        ) == Continuation::CloseAtEndOfInput,
        code_block != OpenCodeBlock::Fenced && line is Some ==> {
            let l = line->0;
            let closer = {
                &&& l.len() >= 3
                &&& colon(l[0]) && colon(l[1]) && colon(l[2])
                &&& forall|i: int| 3 <= i < l.len() ==> colon(#[trigger] l[i]) || ascii_whitespace(l[i])
                &&& forall|i: int, j: int|
                    3 <= i < j < l.len() && ascii_whitespace(#[trigger] l[i]) ==> !colon(#[trigger] l[j])
            };
            &&& closer && div_depth == open_depth ==> continuation(code_block, line, div_depth, open_depth)
                == Continuation::CloseAtFence
            &&& !(closer && div_depth == open_depth) ==> continuation(
                code_block,
                line,
                div_depth,
                open_depth,
            ) == Continuation::KeepOpen
        },
{
    if let Some(l) = line {
        lemma_closing_fence_is_colons_then_whitespace(l);
    }
}

/// What a line that opens a div is made of. It is read without padding and
/// starts with a fence of at least three colons, then blanks. Then either a
/// shorthand class name follows, as long as the class-name bytes last, or a
/// `{` where rushdown's attribute parser reads a list (and the div gets that
/// parse's entries). After the class name or the list come blanks, colons and
/// blanks only, up to the line's end.
pub proof fn lemma_opening_line_shape(source: &str, start: int, stop: int, padding: int)
    requires
        0 <= start <= stop <= source.spec_bytes().len(),
    ensures
        opening(source, start, stop, padding) is Some ==> padding <= 0,
        opening(source, start, stop, padding) matches Some(OpeningPayload::ShorthandClass { start: a, stop: b }) ==> {
            let s = source.spec_bytes();
            &&& start + 3 <= a < b <= stop
            &&& fence_and_blanks(s, start, a)
            &&& forall|i: int| a <= i < b ==> class_name_byte(#[trigger] s[i])
            &&& b == stop || !class_name_byte(s[b])
            &&& exists|x: int, y: int| #[trigger] trailer_split(s, b, x, y, stop)
        },
        opening(source, start, stop, padding) matches Some(OpeningPayload::AttributeList { end, entries }) ==> {
            let s = source.spec_bytes();
            &&& exists|k: int|
                #![trigger parsed_attribute_list(source@, k as nat, stop as nat)]
                start + 3 <= k < end <= stop && fence_and_blanks(s, start, k) && s[k] == 123
                    && parsed_attribute_list(source@, k as nat, stop as nat) == Some(
                    (end as nat, entries),
                )
            &&& exists|x: int, y: int| #[trigger] trailer_split(s, end, x, y, stop)
        },
{
    let s = source.spec_bytes();
    if let Some(p) = opening(source, start, stop, padding) {
        lemma_str_has_no_end_marker(source);
        let f = fence_end(source, start, stop);
        lemma_skip_run(s, start, stop, ByteClass::Colon);
        let k = skip_run(s, f, stop, ByteClass::Space);
        lemma_skip_run(s, f, stop, ByteClass::Space);
        assert(k < stop);
        assert(colon(s[start]) && colon(s[start + 1]) && colon(s[start + 2])) by {
            assert(in_class(ByteClass::Colon, s[start]));
            assert(in_class(ByteClass::Colon, s[start + 1]));
            assert(in_class(ByteClass::Colon, s[start + 2]));
        }
        assert forall|i: int| start <= i < k implies colon(#[trigger] s[i]) || blank(s[i]) by {
            if i < f {
                assert(in_class(ByteClass::Colon, s[i]));
            } else {
                assert(in_class(ByteClass::Space, s[i]));
            }
        }
        assert(!blank(s[k]) && (colon(s[k]) ==> blank(s[k - 1]))) by {
            assert(!in_class(ByteClass::Space, s[k]));
            if k == f {
                assert(!in_class(ByteClass::Colon, s[f]));
            } else {
                assert(in_class(ByteClass::Space, s[k - 1]));
            }
        }
        assert forall|i: int, j: int| start <= i < j < k && blank(#[trigger] s[i]) implies !colon(
            #[trigger] s[j],
        ) by {
            if i < f {
                assert(in_class(ByteClass::Colon, s[i]));
            }
            assert(in_class(ByteClass::Space, s[j]));
        }
        assert(fence_and_blanks(s, start, k));
        let end = match p {
            OpeningPayload::ShorthandClass { stop: b, .. } => {
                lemma_skip_run(s, k, stop, ByteClass::ClassName);
                assert forall|i: int| k <= i < b implies class_name_byte(#[trigger] s[i]) by {
                    assert(in_class(ByteClass::ClassName, s[i]));
                }
                assert(b == stop || !class_name_byte(s[b])) by {
                    if b < stop {
                        assert(!in_class(ByteClass::ClassName, s[b]));
                    }
                }
                b
            },
            OpeningPayload::AttributeList { end, entries } => {
                assert(parsed_attribute_list(source@, k as nat, stop as nat) == Some(
                    (end as nat, entries),
                ));
                end
            },
        };
        // The trailer after the payload.
        let x = skip_run(s, end, stop, ByteClass::Space);
        let y = skip_run(s, x, stop, ByteClass::Colon);
        let t = skip_run(s, y, stop, ByteClass::Space);
        lemma_skip_run(s, end, stop, ByteClass::Space);
        lemma_skip_run(s, x, stop, ByteClass::Colon);
        lemma_skip_run(s, y, stop, ByteClass::Space);
        assert(t == trailer_end(s, end, stop));
        assert(t == stop);
        assert(trailer_split(s, end, x, y, stop)) by {
            assert forall|i: int| end <= i < x implies blank(#[trigger] s[i]) by {
                assert(in_class(ByteClass::Space, s[i]));
            }
            assert forall|i: int| x <= i < y implies colon(#[trigger] s[i]) by {
                assert(in_class(ByteClass::Colon, s[i]));
            }
            assert forall|i: int| y <= i < stop implies blank(#[trigger] s[i]) by {
                assert(in_class(ByteClass::Space, s[i]));
            }
        }
    }
}

/// Closing a div takes one off the open depth, and never goes below zero.
pub proof fn lemma_close_takes_one_off(depth: nat)
    ensures
        depth_after_close(depth + 1) == depth,
        depth_after_close(0) == 0,
{
}

/// The open tag of a div is `<div`, the rendered attributes exactly as they
/// are, and `>`, whatever the attribute text; the close tag is `</div>`.
pub proof fn lemma_div_tags(attributes_html: Seq<char>)
    ensures
        div_html(true, attributes_html) == seq!['<', 'd', 'i', 'v'] + attributes_html + seq!['>'],
        div_html(false, attributes_html) == seq!['<', '/', 'd', 'i', 'v', '>'],
{
}

/// Text without `"`, `&`, `<`, `>` or NUL is written as it is.
pub proof fn lemma_plain_text_is_not_escaped(text: Seq<char>)
    requires
        forall|i: int|
            0 <= i < text.len() ==> #[trigger] text[i] != '"' && text[i] != '&' && text[i] != '<'
                && text[i] != '>' && text[i] != '\0',
    ensures
        escape_html(text) == text,
    decreases text.len(),
{
    if text.len() > 0 {
        lemma_plain_text_is_not_escaped(text.drop_last());
        assert(text.drop_last().push(text.last()) == text);
    }
}

/// Escaping works character by character: the escape of joined texts is the
/// joined escapes, `"`, `&`, `<` and `>` become `&quot;`, `&amp;`, `&lt;` and
/// `&gt;`, NUL becomes U+FFFD, and any other character stays.
pub proof fn lemma_escape_html_by_character(a: Seq<char>, b: Seq<char>, c: char)
    ensures
        escape_html(a + b) == escape_html(a) + escape_html(b),
        escape_html(seq!['"']) == seq!['&', 'q', 'u', 'o', 't', ';'],
        escape_html(seq!['&']) == seq!['&', 'a', 'm', 'p', ';'],
        escape_html(seq!['<']) == seq!['&', 'l', 't', ';'],
        escape_html(seq!['>']) == seq!['&', 'g', 't', ';'],
        escape_html(seq!['\0']) == seq!['\u{FFFD}'],
        c != '"' && c != '&' && c != '<' && c != '>' && c != '\0' ==> escape_html(seq![c])
            == seq![c],
    decreases b.len(),
{
    assert forall|x: char| #[trigger] escape_html(seq![x]) == Seq::<char>::empty() + escape_html_char(x) by {
        assert(seq![x].drop_last() == Seq::<char>::empty());
        assert(seq![x].last() == x);
        assert(escape_html(Seq::<char>::empty()) == Seq::<char>::empty());
    }
    assert(Seq::<char>::empty() + seq!['&', 'q', 'u', 'o', 't', ';'] == seq!['&', 'q', 'u', 'o', 't', ';']);
    assert(Seq::<char>::empty() + seq!['&', 'a', 'm', 'p', ';'] == seq!['&', 'a', 'm', 'p', ';']);
    assert(Seq::<char>::empty() + seq!['&', 'l', 't', ';'] == seq!['&', 'l', 't', ';']);
    assert(Seq::<char>::empty() + seq!['&', 'g', 't', ';'] == seq!['&', 'g', 't', ';']);
    assert(Seq::<char>::empty() + seq!['\u{FFFD}'] == seq!['\u{FFFD}']);
    assert(Seq::<char>::empty() + seq![c] == seq![c]);
    if b.len() == 0 {
        assert(a + b == a);
    } else {
        lemma_escape_html_by_character(a, b.drop_last(), c);
        assert((a + b).drop_last() == a + b.drop_last());
        assert((a + b).last() == b.last());
    }
}

/// Rendering attributes renders each one, in order: the text for a list of
/// attributes followed by more is the text for the first ones followed by the
/// text for the rest, and one attribute with a text value renders as a space,
/// its name, `="`, its escaped value and `"`.
pub proof fn lemma_attributes_render_one_by_one(
    source: Seq<char>,
    first: Seq<(Seq<char>, AttributeValue)>,
    rest: Seq<(Seq<char>, AttributeValue)>,
    name: Seq<char>,
    text: Seq<char>,
)
    ensures
        rendered_attributes(source, first + rest) == rendered_attributes(source, first)
            + rendered_attributes(source, rest),
        rendered_attributes(source, seq![(name, AttributeValue::Text(text))]) == seq![' '] + name
            + seq!['=', '"'] + escape_html(text) + seq!['"'],
    decreases rest.len(),
{
    let one = seq![(name, AttributeValue::Text(text))];
    assert(one.drop_last() == Seq::<(Seq<char>, AttributeValue)>::empty());
    assert(rendered_attributes(source, one.drop_last()) == Seq::<char>::empty());
    assert(value_text(source, one.last().1) == text);
    assert(Seq::<char>::empty() + seq![' '] == seq![' ']);
    if rest.len() == 0 {
        assert(first + rest == first);
    } else {
        lemma_attributes_render_one_by_one(source, first, rest.drop_last(), name, text);
        assert((first + rest).drop_last() == first + rest.drop_last());
        assert((first + rest).last() == rest.last());
    }
}

} // verus!
