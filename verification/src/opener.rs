//! Opening fences: `:::` followed by a shorthand class or an attribute list,
//! optionally followed by more colons.

use crate::attributes::{
    attribute_entries, insert_span_attribute, new_attribute_map, parse_attribute_list,
    parsed_attribute_list, spans_within, AttributeValue,
};
use crate::bytes::{
    is_class_name_byte, is_space_byte, lemma_ascii_is_boundary, lemma_boundary_after_ascii_run,
    lemma_skip_run, peek_byte, peek_byte_at, skip_run, skip_run_of, ByteClass,
    END_OF_LINE,
};
use crate::div::FencedDiv;
use vstd::prelude::*;
use vstd::string::StringSliceAdditionalSpecFns;
use vstd::utf8::{encode_utf8_valid_utf8, is_char_boundary};

verus! {

/// The fewest colons that make a fence.
pub const MIN_FENCE_LENGTH: usize = 3;

/// What an opening fence carries, by source positions.
pub enum OpeningPayload {
    /// A shorthand class: the class name is `source[start..stop]`.
    ShorthandClass { start: int, stop: int },
    /// An attribute list that rushdown's attribute parser reads up to `end`,
    /// with the entries it reads.
    AttributeList { end: int, entries: Seq<(Seq<char>, AttributeValue)> },
}

/// A shorthand class name starts and ends on character boundaries: it
/// follows `pos` (a boundary) after ASCII spaces only, and ends at `stop` (a
/// boundary) or before an ASCII byte.
proof fn lemma_class_name_span_on_boundaries(source: &str, pos: int, k: int, e: int, stop: int)
    requires
        0 <= pos <= k < e <= stop <= source.spec_bytes().len(),
        is_char_boundary(source.spec_bytes(), pos),
        is_char_boundary(source.spec_bytes(), stop),
        forall|j: int| pos <= j < k ==> is_space_byte(#[trigger] source.spec_bytes()[j]),
        e == stop || !is_class_name_byte(source.spec_bytes()[e]),
    ensures
        is_char_boundary(source.spec_bytes(), k),
        is_char_boundary(source.spec_bytes(), e),
{
    let s = source.spec_bytes();
    encode_utf8_valid_utf8(source@);
    lemma_boundary_after_ascii_run(s, pos, k);
    if e < stop {
        lemma_ascii_is_boundary(s, e);
    }
}

/// The attributes a div gets from its fence: `class` set to the shorthand
/// class name, or the entries of the attribute list.
pub open spec fn payload_entries(payload: OpeningPayload) -> Seq<(Seq<char>, AttributeValue)> {
    match payload {
        OpeningPayload::ShorthandClass { start, stop } => seq![
            ("class"@, AttributeValue::Span { start: start as nat, stop: stop as nat }),
        ],
        OpeningPayload::AttributeList { entries, .. } => entries,
    }
}

/// Where the spaces, colons and spaces that may follow a payload end.
pub open spec fn trailer_end(s: Seq<u8>, i: int, stop: int) -> int {
    let a = skip_run(s, i, stop, ByteClass::Space);
    let b = skip_run(s, a, stop, ByteClass::Colon);
    skip_run(s, b, stop, ByteClass::Space)
}

/// Nothing but spaces and colons (spaces, then colons, then spaces) follows
/// position `i` on the line that ends at `stop`.
pub open spec fn only_trailer_from(s: Seq<u8>, i: int, stop: int) -> bool {
    peek_byte(s, trailer_end(s, i, stop), stop) == END_OF_LINE
}

/// What the rest of an opening line, from `pos` (just after the fence) to
/// `stop`, carries: after any spaces, either an attribute list (when the next
/// byte is `{`) or a non-empty shorthand class name, and then nothing but
/// spaces and colons. `None` where the rest is not of that form.
pub open spec fn opening_payload(source: &str, pos: int, stop: int) -> Option<OpeningPayload> {
    let s = source.spec_bytes();
    let k = skip_run(s, pos, stop, ByteClass::Space);
    let b = peek_byte(s, k, stop);
    if b == END_OF_LINE {
        None
    } else if b == 123 {
        match parsed_attribute_list(source@, k as nat, stop as nat) {
            Some((e, entries)) => if k < e <= stop && only_trailer_from(s, e as int, stop) {
                Some(OpeningPayload::AttributeList { end: e as int, entries })
            } else {
                None
            },
            None => None,
        }
    } else {
        let e = skip_run(s, k, stop, ByteClass::ClassName);
        if e == k {
            None
        } else if only_trailer_from(s, e, stop) {
            Some(OpeningPayload::ShorthandClass { start: k, stop: e })
        } else {
            None
        }
    }
}

/// Where the fence at the head of the line `source[start..stop]` ends.
pub open spec fn fence_end(source: &str, start: int, stop: int) -> int {
    skip_run(source.spec_bytes(), start, stop, ByteClass::Colon)
}

/// What the line `source[start..stop]`, read after `padding` columns of
/// spaces, opens: a fence of at least three colons at the very head of the
/// line, then an opening payload. `None` where the line opens no fenced div.
pub open spec fn opening(source: &str, start: int, stop: int, padding: int) -> Option<
    OpeningPayload,
> {
    if padding > 0 {
        None
    } else if fence_end(source, start, stop) - start < MIN_FENCE_LENGTH {
        None
    } else {
        opening_payload(source, fence_end(source, start, stop), stop)
    }
}

/// Reads the payload of an opening fence from the line `source[pos..stop]`
/// (`pos` is just after the fence): a shorthand class or an attribute list,
/// which nothing but spaces and colons may follow. Returns the attributes
/// the fence gives its div.
pub fn parse_opening_fence(source: &str, pos: usize, stop: usize) -> (res: Option<
    rushdown::util::StringMap<rushdown::text::Value>,
>)
    requires
        pos <= stop <= source.spec_bytes().len(),
        is_char_boundary(source.spec_bytes(), pos as int),
        is_char_boundary(source.spec_bytes(), stop as int),
    ensures
        res is Some <==> opening_payload(source, pos as int, stop as int) is Some,
        res matches Some(map) ==> {
            &&& attribute_entries(map) == payload_entries(
                opening_payload(source, pos as int, stop as int)->0,
            )
            &&& spans_within(attribute_entries(map), source.spec_bytes(), pos as int, stop as int)
        },
{
    let s = source.as_bytes();
    let k = skip_run_of(s, pos, stop, ByteClass::Space);
    let b = peek_byte_at(s, k, stop);
    if b == END_OF_LINE {
        return None;
    }
    // b'{'
    let (attributes, end) = if b == 123u8 {
        match parse_attribute_list(source, k, stop) {
            Some((end, list)) => (list, end),
            None => {
                return None;
            },
        }
    } else {
        let e = skip_run_of(s, k, stop, ByteClass::ClassName);
        if e == k {
            return None;
        }
        proof {
            lemma_skip_run(s@, pos as int, stop as int, ByteClass::Space);
            lemma_skip_run(s@, k as int, stop as int, ByteClass::ClassName);
            lemma_class_name_span_on_boundaries(source, pos as int, k as int, e as int, stop as int);
        }
        let mut class = new_attribute_map();
        insert_span_attribute(&mut class, "class", k, e);
        (class, e)
    };
    if only_trailer_after(source, end, stop) {
        Some(attributes)
    } else {
        None
    }
}

/// Whether nothing but spaces, then colons, then spaces follows `pos` on the
/// line `source[..stop]` (what may follow the payload of an opening fence).
pub fn only_trailer_after(source: &str, pos: usize, stop: usize) -> (ok: bool)
    requires
        pos <= stop <= source.spec_bytes().len(),
    ensures
        ok == only_trailer_from(source.spec_bytes(), pos as int, stop as int),
{
    let s = source.as_bytes();
    let t = skip_run_of(s, pos, stop, ByteClass::Space);
    let t = skip_run_of(s, t, stop, ByteClass::Colon);
    let t = skip_run_of(s, t, stop, ByteClass::Space);
    peek_byte_at(s, t, stop) == END_OF_LINE
}

/// A fenced div that a line opens, with the attributes its fence carries.
pub struct FencedDivOpening {
    pub div: FencedDiv,
    pub attributes: rushdown::util::StringMap<rushdown::text::Value>,
}

/// The number of colons at the head of `line`.
pub fn fence_length(line: &[u8]) -> (n: usize)
    ensures
        n == skip_run(line@, 0, line@.len() as int, ByteClass::Colon),
        n <= line@.len(),
{
    skip_run_of(line, 0, line.len(), ByteClass::Colon)
}

/// Decides whether the line `source[start..stop]`, read after `padding`
/// columns of spaces, opens a fenced div while `open_depth` fenced divs are
/// open. The new div is nested one deeper.
pub fn open_fenced_div(
    source: &str,
    start: usize,
    stop: usize,
    padding: usize,
    open_depth: usize,
) -> (res: Option<FencedDivOpening>)
    requires
        start <= stop <= source.spec_bytes().len(),
        is_char_boundary(source.spec_bytes(), start as int),
        is_char_boundary(source.spec_bytes(), stop as int),
        padding == 0 && fence_end(source, start as int, stop as int) - start >= MIN_FENCE_LENGTH
            ==> open_depth < usize::MAX,
    ensures
        res is Some <==> opening(source, start as int, stop as int, padding as int) is Some,
        res matches Some(o) ==> {
            &&& o.div@ == open_depth + 1
            &&& attribute_entries(o.attributes) == payload_entries(
                opening(source, start as int, stop as int, padding as int)->0,
            )
            &&& spans_within(
                attribute_entries(o.attributes),
                source.spec_bytes(),
                start as int,
                stop as int,
            )
        },
{
    if padding > 0 {
        return None;
    }
    let fence = skip_run_of(source.as_bytes(), start, stop, ByteClass::Colon);
    if fence - start < MIN_FENCE_LENGTH {
        return None;
    }
    proof {
        let b = source.spec_bytes();
        lemma_skip_run(b, start as int, stop as int, ByteClass::Colon);
        encode_utf8_valid_utf8(source@);
        lemma_boundary_after_ascii_run(b, start as int, fence as int);
    }
    let depth = open_depth + 1;
    match parse_opening_fence(source, fence, stop) {
        Some(attributes) => Some(FencedDivOpening { div: FencedDiv::new(depth), attributes }),
        None => None,
    }
}

} // verus!
