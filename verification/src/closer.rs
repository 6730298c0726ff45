//! Closing fences, and what closing a fenced div does to the open depth.

use crate::bytes::{is_ascii_whitespace_byte, skip_run, ByteClass};
use crate::div::FencedDiv;
use crate::opener::{fence_length, MIN_FENCE_LENGTH};
use vstd::prelude::*;

verus! {

/// What happens to an open fenced div at the next line.
#[derive(Clone, Copy, Debug, PartialEq, Eq, Structural)]
pub enum Continuation {
    /// The div stays open and the line belongs to its content.
    KeepOpen,
    /// The line is the div's closing fence: the div closes and the line is
    /// consumed.
    CloseAtFence,
    /// The input is used up: the div closes.
    CloseAtEndOfInput,
}

/// The code block, other than the div itself, that was opened last while
/// the div is open.
#[derive(Clone, Copy, Debug, PartialEq, Eq, Structural)]
pub enum OpenCodeBlock {
    /// The last block opened is no code block.
    NoCodeBlock,
    /// An indented code block: a line without indentation ends it.
    Indented,
    /// A fenced code block: every line up to its closing fence is code.
    Fenced,
}

/// A line of at least three colons followed by nothing but ASCII whitespace.
pub open spec fn is_closing_fence(line: Seq<u8>) -> bool {
    let f = skip_run(line, 0, line.len() as int, ByteClass::Colon);
    &&& f >= MIN_FENCE_LENGTH
    &&& forall|i: int| f <= i < line.len() ==> is_ascii_whitespace_byte(#[trigger] line[i])
}

/// What becomes of a div at `div_depth` when `open_depth` divs are open and
/// `line` is next (`None` at the end of the input). While a fenced code block
/// is the last block opened, every line is code; otherwise a closing fence
/// (which has no indentation, so it also ends an indented code block) closes
/// the innermost open div, and only that one.
pub open spec fn continuation(
    code_block: OpenCodeBlock,
    line: Option<Seq<u8>>,
    div_depth: nat,
    open_depth: nat,
) -> Continuation {
    if code_block == OpenCodeBlock::Fenced {
        Continuation::KeepOpen
    } else {
        match line {
            None => Continuation::CloseAtEndOfInput,
            Some(l) => if is_closing_fence(l) && div_depth == open_depth {
                Continuation::CloseAtFence
            } else {
                Continuation::KeepOpen
            },
        }
    }
}

/// The bytes of the line, where there is one.
pub open spec fn line_view(line: Option<&[u8]>) -> Option<Seq<u8>> {
    match line {
        Some(l) => Some(l@),
        None => None,
    }
}

/// Whether `line` is a closing fence.
pub fn closes_fence(line: &[u8]) -> (res: bool)
    ensures
        res == is_closing_fence(line@),
{
    let f = fence_length(line);
    if f < MIN_FENCE_LENGTH {
        return false;
    }
    let mut i = f;
    while i < line.len()
        invariant
            f <= i <= line@.len(),
            f == skip_run(line@, 0, line@.len() as int, ByteClass::Colon),
            forall|j: int| f <= j < i ==> is_ascii_whitespace_byte(#[trigger] line@[j]),
        decreases line.len() - i,
    {
        let b = line[i];
        // ' ', '\t', '\n', '\x0c', '\r'
        if !(b == 32u8 || b == 9u8 || b == 10u8 || b == 12u8 || b == 13u8) {
            return false;
        }
        i = i + 1;
    }
    true
}

/// Decides what becomes of the open fenced div `div` at the next line, while
/// `open_depth` fenced divs are open. `code_block` tells which kind of code
/// block, if any, is the last block opened inside the div.
pub fn continue_fenced_div(
    div: &FencedDiv,
    code_block: OpenCodeBlock,
    line: Option<&[u8]>,
    open_depth: usize,
) -> (res: Continuation)
    ensures
        res == continuation(code_block, line_view(line), div@, open_depth as nat),
{
    if code_block == OpenCodeBlock::Fenced {
        return Continuation::KeepOpen;
    }
    match line {
        None => Continuation::CloseAtEndOfInput,
        Some(l) => {
            if closes_fence(l) && div.depth() == open_depth {
                Continuation::CloseAtFence
            } else {
                Continuation::KeepOpen
            }
        },
    }
}

/// The number of open fenced divs after one of them closes.
pub open spec fn depth_after_close(open_depth: nat) -> nat {
    if open_depth == 0 {
        0
    } else {
        (open_depth - 1) as nat
    }
}

/// The open depth after a fenced div closes: one less, and never below zero.
pub fn close_fenced_div(open_depth: usize) -> (depth: usize)
    ensures
        depth == depth_after_close(open_depth as nat),
{
    open_depth.saturating_sub(1)
}

} // verus!
