//! Properties of the fence rules that span several functions.

use crate::bytes::{
    in_class, is_ascii_whitespace_byte, is_class_name_byte, is_space_byte, lemma_skip_run,
    lemma_skip_run_ends_at, lemma_str_has_no_end_marker, skip_run, ByteClass,
};
use crate::attributes::parsed_attribute_list;
use crate::closer::{continuation, depth_after_close, is_closing_fence, Continuation, OpenCodeBlock};
use crate::opener::{fence_end, opening, trailer_end, OpeningPayload};
use vstd::prelude::*;
use vstd::string::StringSliceAdditionalSpecFns;

verus! {

/// Skipping a run inside a line gives the same end whether the line is taken
/// on its own or inside the whole source.
proof fn lemma_skip_run_in_line(s: Seq<u8>, a: int, i: int, stop: int, class: ByteClass)
    requires
        0 <= a <= i <= stop <= s.len(),
    ensures
        skip_run(s.subrange(a, stop), i - a, stop - a, class) + a == skip_run(s, i, stop, class),
    decreases stop - i,
{
    if i < stop && in_class(class, s[i]) {
        lemma_skip_run_in_line(s, a, i + 1, stop, class);
    }
}

/// A closing fence never opens a fenced div, wherever its line stands in the
/// source and whatever padding it is read after. (A form feed is ASCII
/// whitespace but no space to rushdown, so a fence followed by one is both a
/// closing fence and the opener of a div with the form feed as its class:
/// such lines are left out.)
pub proof fn lemma_closing_fence_opens_nothing(source: &str, start: int, stop: int, padding: int)
    requires
        0 <= start <= stop <= source.spec_bytes().len(),
        is_closing_fence(source.spec_bytes().subrange(start, stop)),
        forall|i: int| start <= i < stop ==> #[trigger] source.spec_bytes()[i] != 12,
    ensures
        opening(source, start, stop, padding) is None,
{
    let s = source.spec_bytes();
    let line = s.subrange(start, stop);
    if padding <= 0 {
        lemma_skip_run_in_line(s, start, start, stop, ByteClass::Colon);
        let f = fence_end(source, start, stop);
        lemma_skip_run(s, start, stop, ByteClass::Colon);
        assert forall|j: int| f <= j < stop implies in_class(ByteClass::Space, #[trigger] s[j]) by {
            assert(s[j] == line[j - start]);
            assert(is_ascii_whitespace_byte(line[j - start]));
        }
        lemma_skip_run_ends_at(s, f, stop, stop, ByteClass::Space);
    }
}

/// Same-length closing fences close the innermost div first: while divs are
/// nested, a closing fence closes only the div whose depth is the open depth,
/// and closing it brings the open depth back to what it was before that div
/// opened (a div opened while `open_depth` divs were open has depth
/// `open_depth + 1`).
pub proof fn lemma_closing_fence_closes_innermost_div(
    open_depth: nat,
    outer_depth: nat,
    line: Seq<u8>,
)
    requires
        is_closing_fence(line),
        outer_depth <= open_depth,
    ensures
        continuation(OpenCodeBlock::NoCodeBlock, Some(line), open_depth + 1, open_depth + 1)
            == Continuation::CloseAtFence,
        continuation(OpenCodeBlock::NoCodeBlock, Some(line), outer_depth, open_depth + 1) == Continuation::KeepOpen,
        depth_after_close(open_depth + 1) == open_depth,
{
}

/// What happens to the fenced divs during a parse: one opens (a line for
/// which `open_fenced_div` gives a div) or the innermost one closes.
pub enum DivEvent {
    Open,
    Close,
}

/// The open depth the parser keeps after `events`, starting from none open:
/// an opened div has depth one more than the open depth
/// (`open_fenced_div`), and a close takes one off (`close_fenced_div`).
pub open spec fn depth_after(events: Seq<DivEvent>) -> nat
    decreases events.len(),
{
    if events.len() == 0 {
        0
    } else {
        let depth = depth_after(events.drop_last());
        match events.last() {
            DivEvent::Open => depth + 1,
            DivEvent::Close => depth_after_close(depth),
        }
    }
}

/// The depths of the divs still open after `events`, outermost first.
pub open spec fn open_div_depths(events: Seq<DivEvent>) -> Seq<nat>
    decreases events.len(),
{
    if events.len() == 0 {
        Seq::empty()
    } else {
        let open = open_div_depths(events.drop_last());
        match events.last() {
            DivEvent::Open => open.push(depth_after(events.drop_last()) + 1),
            DivEvent::Close => if open.len() == 0 {
                open
            } else {
                open.drop_last()
            },
        }
    }
}

/// Over any parse, the open depth is the number of divs still open and the
/// k-th of them from the outside has depth k (counting from 1), so a closing
/// fence closes the innermost open div and no other.
pub proof fn lemma_open_depth_counts_open_divs(events: Seq<DivEvent>)
    ensures
        depth_after(events) == open_div_depths(events).len(),
        forall|k: int|
            0 <= k < open_div_depths(events).len() ==> #[trigger] open_div_depths(events)[k] == k
                + 1,
        forall|line: Seq<u8>, k: int|
            is_closing_fence(line) && 0 <= k < open_div_depths(events).len() ==> #[trigger] continuation(
                OpenCodeBlock::NoCodeBlock,
                Some(line),
                open_div_depths(events)[k],
                depth_after(events),
            ) == if k == open_div_depths(events).len() - 1 {
                Continuation::CloseAtFence
            } else {
                Continuation::KeepOpen
            },
    decreases events.len(),
{
    if events.len() > 0 {
        lemma_open_depth_counts_open_divs(events.drop_last());
    }
}

/// Nothing is a closing fence while a fenced code block inside the div is
/// open; while an indented one is open, a closing fence still closes the
/// innermost div, as it does with no code block open.
pub proof fn lemma_code_blocks_and_closing_fences(
    line: Option<Seq<u8>>,
    div_depth: nat,
    open_depth: nat,
)
    ensures
        continuation(OpenCodeBlock::Fenced, line, div_depth, open_depth) == Continuation::KeepOpen,
        continuation(OpenCodeBlock::Indented, line, div_depth, open_depth) == continuation(
            OpenCodeBlock::NoCodeBlock,
            line,
            div_depth,
            open_depth,
        ),
{
}

/// Trailing colons after a shorthand class are accepted: a line made of a
/// fence of three or more colons (`source[start..fence]`), spaces
/// (`[fence..word]`), a class name (`[word..word_end]`), spaces
/// (`[word_end..colons]`), colons (`[colons..colons_end]`) and spaces
/// (`[colons_end..stop]`) opens a div whose class is the name. The class name
/// must not start with a colon where no space parts it from the fence, and
/// must be parted by a space from trailing colons.
pub proof fn lemma_trailing_colons_after_shorthand_class(
    source: &str,
    start: int,
    fence: int,
    word: int,
    word_end: int,
    colons: int,
    colons_end: int,
    stop: int,
)
    requires
        0 <= start,
        start + 3 <= fence <= word < word_end <= colons <= colons_end <= stop,
        stop <= source.spec_bytes().len(),
        forall|i: int| start <= i < fence ==> #[trigger] source.spec_bytes()[i] == 58,
        forall|i: int| fence <= i < word ==> is_space_byte(#[trigger] source.spec_bytes()[i]),
        forall|i: int|
            word <= i < word_end ==> is_class_name_byte(#[trigger] source.spec_bytes()[i]),
        fence == word ==> source.spec_bytes()[word] != 58,
        word_end < colons || colons == colons_end,
        forall|i: int| word_end <= i < colons ==> is_space_byte(#[trigger] source.spec_bytes()[i]),
        forall|i: int| colons <= i < colons_end ==> #[trigger] source.spec_bytes()[i] == 58,
        forall|i: int|
            colons_end <= i < stop ==> is_space_byte(#[trigger] source.spec_bytes()[i]),
    ensures
        opening(source, start, stop, 0) == Some(
            OpeningPayload::ShorthandClass { start: word, stop: word_end },
        ),
{
    let s = source.spec_bytes();
    lemma_str_has_no_end_marker(source);
    lemma_skip_run_ends_at(s, start, fence, stop, ByteClass::Colon);
    lemma_skip_run_ends_at(s, fence, word, stop, ByteClass::Space);
    lemma_skip_run_ends_at(s, word, word_end, stop, ByteClass::ClassName);
    if colons < colons_end {
        lemma_skip_run_ends_at(s, word_end, colons, stop, ByteClass::Space);
        lemma_skip_run_ends_at(s, colons, colons_end, stop, ByteClass::Colon);
        lemma_skip_run_ends_at(s, colons_end, stop, stop, ByteClass::Space);
    } else {
        lemma_skip_run_ends_at(s, word_end, stop, stop, ByteClass::Space);
        lemma_skip_run_ends_at(s, stop, stop, stop, ByteClass::Colon);
    }
    assert(trailer_end(s, word_end, stop) == stop);
}

/// Trailing colons after an attribute list are accepted: a line made of a
/// fence of three or more colons (`source[start..fence]`), spaces
/// (`[fence..list]`), an attribute list from its `{` up to `list_end`, spaces
/// (`[list_end..colons]`), colons (`[colons..colons_end]`) and spaces
/// (`[colons_end..stop]`) opens a div with that attribute list, wherever
/// rushdown's attribute parser reads the list up to `list_end`.
pub proof fn lemma_trailing_colons_after_attribute_list(
    source: &str,
    start: int,
    fence: int,
    list: int,
    list_end: int,
    colons: int,
    colons_end: int,
    stop: int,
)
    requires
        0 <= start,
        start + 3 <= fence <= list < list_end <= colons <= colons_end <= stop,
        stop <= source.spec_bytes().len(),
        forall|i: int| start <= i < fence ==> #[trigger] source.spec_bytes()[i] == 58,
        forall|i: int| fence <= i < list ==> is_space_byte(#[trigger] source.spec_bytes()[i]),
        source.spec_bytes()[list] == 123,
        forall|i: int| list_end <= i < colons ==> is_space_byte(#[trigger] source.spec_bytes()[i]),
        forall|i: int| colons <= i < colons_end ==> #[trigger] source.spec_bytes()[i] == 58,
        forall|i: int|
            colons_end <= i < stop ==> is_space_byte(#[trigger] source.spec_bytes()[i]),
    ensures
        match parsed_attribute_list(source@, list as nat, stop as nat) {
            Some((end, entries)) => end == list_end ==> opening(source, start, stop, 0) == Some(
                OpeningPayload::AttributeList { end: list_end, entries },
            ),
            None => true,
        },
{
    let s = source.spec_bytes();
    lemma_skip_run_ends_at(s, start, fence, stop, ByteClass::Colon);
    lemma_skip_run_ends_at(s, fence, list, stop, ByteClass::Space);
    if colons < colons_end {
        lemma_skip_run_ends_at(s, list_end, colons, stop, ByteClass::Space);
        lemma_skip_run_ends_at(s, colons, colons_end, stop, ByteClass::Colon);
        lemma_skip_run_ends_at(s, colons_end, stop, stop, ByteClass::Space);
    } else {
        lemma_skip_run_ends_at(s, list_end, stop, stop, ByteClass::Space);
        lemma_skip_run_ends_at(s, stop, stop, stop, ByteClass::Colon);
    }
    assert(trailer_end(s, list_end, stop) == stop);
}

/// An opening fence must stand at the very head of its line: a line read
/// after padding, or whose first byte is a space, opens nothing.
pub proof fn lemma_indented_line_opens_nothing(source: &str, start: int, stop: int, padding: int)
    requires
        0 <= start < stop <= source.spec_bytes().len(),
        padding > 0 || is_space_byte(source.spec_bytes()[start]),
    ensures
        opening(source, start, stop, padding) is None,
{
}

} // verus!
