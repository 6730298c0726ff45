//! Byte classes and the scanning primitives the fence rules are built from.

use vstd::prelude::*;
use vstd::string::StringSliceAdditionalSpecFns;
use vstd::utf8::{
    encode_utf8_valid_utf8, is_char_boundary, is_char_boundary_iff_not_is_continuation_byte,
    length_of_first_scalar, pop_first_scalar, valid_utf8,
};

verus! {

/// The byte that rushdown's readers report once a line is used up
/// (`rushdown::text::EOS`).
pub const END_OF_LINE: u8 = 0xffu8;

/// rushdown's space test: tab, line feed, carriage return and the space
/// itself.
pub assume_specification[ rushdown::util::is_space ](c: u8) -> (res: bool)
    ensures
        res == is_space_byte(c),
;

/// rushdown's punctuation test: the ASCII punctuation characters.
pub assume_specification[ rushdown::util::is_punct ](c: u8) -> (res: bool)
    ensures
        res == is_punct_byte(c),
;

/// A space in rushdown's sense: tab, line feed, carriage return or space.
pub open spec fn is_space_byte(b: u8) -> bool {
    b == 9 || b == 10 || b == 13 || b == 32
}

/// ASCII punctuation: `!` to `/`, `:` to `@`, `[` to `` ` `` and `{` to `~`.
pub open spec fn is_punct_byte(b: u8) -> bool {
    (33 <= b && b <= 47) || (58 <= b && b <= 64) || (91 <= b && b <= 96) || (123 <= b
        && b <= 126)
}

/// A byte that may stand in a shorthand class name: no space, and no
/// punctuation other than `_`, `-`, `:` and `.`.
pub open spec fn is_class_name_byte(b: u8) -> bool {
    !is_space_byte(b) && (!is_punct_byte(b) || b == 95 || b == 45 || b == 58 || b == 46)
}

/// ASCII whitespace as `u8::is_ascii_whitespace` has it: space, tab, line
/// feed, form feed and carriage return (no vertical tab).
pub open spec fn is_ascii_whitespace_byte(b: u8) -> bool {
    b == 32 || b == 9 || b == 10 || b == 12 || b == 13
}

/// The byte classes that the fence rules skip over.
#[derive(Clone, Copy, Debug, PartialEq, Eq)]
pub enum ByteClass {
    Colon,
    Space,
    ClassName,
}

pub open spec fn in_class(class: ByteClass, b: u8) -> bool {
    match class {
        ByteClass::Colon => b == 58,
        ByteClass::Space => is_space_byte(b),
        ByteClass::ClassName => is_class_name_byte(b),
    }
}

/// The position where the run of `class` bytes that starts at `i` ends,
/// looking no further than `stop`.
pub open spec fn skip_run(s: Seq<u8>, i: int, stop: int, class: ByteClass) -> int
    decreases stop - i,
{
    if i < stop && in_class(class, s[i]) {
        skip_run(s, i + 1, stop, class)
    } else {
        i
    }
}

/// The byte a reader over `s[..stop]` sees at `i`: the byte itself, or the
/// end marker once the line is used up.
pub open spec fn peek_byte(s: Seq<u8>, i: int, stop: int) -> u8 {
    if i < stop {
        s[i]
    } else {
        END_OF_LINE
    }
}

/// A run ends inside `[i, stop]`, every byte before its end is in the class,
/// and the byte at its end (if any) is not.
pub proof fn lemma_skip_run(s: Seq<u8>, i: int, stop: int, class: ByteClass)
    requires
        i <= stop,
    ensures
        i <= skip_run(s, i, stop, class) <= stop,
        forall|j: int| i <= j < skip_run(s, i, stop, class) ==> in_class(class, #[trigger] s[j]),
        skip_run(s, i, stop, class) < stop ==> !in_class(class, s[skip_run(s, i, stop, class)]),
    decreases stop - i,
{
    if i < stop && in_class(class, s[i]) {
        lemma_skip_run(s, i + 1, stop, class);
    }
}

/// A run is fixed by where it starts and the bytes it passes: a run that
/// starts at `i`, passes only class bytes up to `k` and stops at `k`
/// (before a non-class byte or at `stop`) ends at `k`.
pub proof fn lemma_skip_run_ends_at(s: Seq<u8>, i: int, k: int, stop: int, class: ByteClass)
    requires
        i <= k <= stop,
        forall|j: int| i <= j < k ==> in_class(class, #[trigger] s[j]),
        k == stop || !in_class(class, s[k]),
    ensures
        skip_run(s, i, stop, class) == k,
    decreases k - i,
{
    if i < k {
        lemma_skip_run_ends_at(s, i + 1, k, stop, class);
    }
}

/// No byte of valid UTF-8 is the end marker.
proof fn lemma_valid_utf8_has_no_end_marker(bytes: Seq<u8>)
    requires
        valid_utf8(bytes),
    ensures
        forall|i: int| 0 <= i < bytes.len() ==> #[trigger] bytes[i] != END_OF_LINE,
    decreases bytes.len(),
{
    if bytes.len() > 0 {
        let n = length_of_first_scalar(bytes);
        let rest = pop_first_scalar(bytes);
        assert(rest.len() == bytes.len() - n);
        lemma_valid_utf8_has_no_end_marker(rest);
        assert forall|i: int| 0 <= i < bytes.len() implies #[trigger] bytes[i] != END_OF_LINE by {
            if i >= n {
                assert(bytes[i] == rest[i - n]);
            }
        }
    }
}

/// The bytes of a string never hold the end marker, so a reader over a line
/// of a string reports it only once the line is used up.
pub proof fn lemma_str_has_no_end_marker(source: &str)
    ensures
        forall|i: int|
            0 <= i < source.spec_bytes().len() ==> #[trigger] source.spec_bytes()[i] != END_OF_LINE,
{
    encode_utf8_valid_utf8(source@);
    lemma_valid_utf8_has_no_end_marker(source.spec_bytes());
}

/// In valid UTF-8, the byte after an ASCII byte that starts a character
/// starts one too.
proof fn lemma_boundary_after_ascii(bytes: Seq<u8>, i: int)
    requires
        valid_utf8(bytes),
        0 <= i < bytes.len(),
        is_char_boundary(bytes, i),
        bytes[i] < 0x80,
    ensures
        is_char_boundary(bytes, i + 1),
    decreases bytes.len(),
{
    let n = length_of_first_scalar(bytes);
    let rest = pop_first_scalar(bytes);
    assert(rest.len() == bytes.len() - n);
    if i > 0 {
        assert(rest[i - n] == bytes[i]);
        lemma_boundary_after_ascii(rest, i - n);
    } else {
        assert(is_char_boundary(rest, 0));
    }
}

/// In valid UTF-8, a run of ASCII bytes that starts on a character boundary
/// ends on one.
pub proof fn lemma_boundary_after_ascii_run(bytes: Seq<u8>, i: int, k: int)
    requires
        valid_utf8(bytes),
        0 <= i <= k <= bytes.len(),
        is_char_boundary(bytes, i),
        forall|j: int| i <= j < k ==> #[trigger] bytes[j] < 0x80,
    ensures
        is_char_boundary(bytes, k),
    decreases k - i,
{
    if i < k {
        lemma_boundary_after_ascii(bytes, i);
        lemma_boundary_after_ascii_run(bytes, i + 1, k);
    }
}

/// In valid UTF-8, an ASCII byte starts a character.
pub proof fn lemma_ascii_is_boundary(bytes: Seq<u8>, i: int)
    requires
        valid_utf8(bytes),
        0 <= i < bytes.len(),
        bytes[i] < 0x80,
    ensures
        is_char_boundary(bytes, i),
{
    is_char_boundary_iff_not_is_continuation_byte(bytes, i);
}

/// Whether `b` is in `class`, by rushdown's own byte tests.
pub fn byte_in_class(b: u8, class: ByteClass) -> (res: bool)
    ensures
        res == in_class(class, b),
{
    match class {
        ByteClass::Colon => b == 58u8,
        ByteClass::Space => rushdown::util::is_space(b),
        ByteClass::ClassName => {
            !rushdown::util::is_space(b) && (!rushdown::util::is_punct(b) || b == 95u8 || b
                == 45u8 || b == 58u8 || b == 46u8)
        },
    }
}

/// Skips the run of `class` bytes of `s` that starts at `start`, looking no
/// further than `stop`, and returns where it ends.
pub fn skip_run_of(s: &[u8], start: usize, stop: usize, class: ByteClass) -> (end: usize)
    requires
        start <= stop <= s@.len(),
    ensures
        end == skip_run(s@, start as int, stop as int, class),
        start <= end <= stop,
{
    let mut i = start;
    while i < stop && byte_in_class(s[i], class)
        invariant
            start <= i <= stop <= s@.len(),
            skip_run(s@, i as int, stop as int, class) == skip_run(
                s@,
                start as int,
                stop as int,
                class,
            ),
        decreases stop - i,
    {
        i = i + 1;
    }
    i
}

/// What a reader over `s[..stop]` sees at `i`.
pub fn peek_byte_at(s: &[u8], i: usize, stop: usize) -> (b: u8)
    requires
        stop <= s@.len(),
    ensures
        b == peek_byte(s@, i as int, stop as int),
{
    if i < stop {
        s[i]
    } else {
        END_OF_LINE
    }
}

} // verus!
