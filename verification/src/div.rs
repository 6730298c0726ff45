//! The AST payload of a fenced div.

use vstd::prelude::*;

verus! {

/// AST node data for a fenced div container: how deeply it is nested among
/// the fenced divs that are open (the outermost one has depth 1).
#[derive(Debug)]
pub struct FencedDiv {
    depth: usize,
}

impl View for FencedDiv {
    type V = nat;

    closed spec fn view(&self) -> nat {
        self.depth as nat
    }
}

impl FencedDiv {
    /// A fenced div at the given depth.
    pub fn new(depth: usize) -> (div: FencedDiv)
        ensures
            div@ == depth,
    {
        FencedDiv { depth }
    }

    /// The depth the div was opened at.
    pub fn depth(&self) -> (depth: usize)
        ensures
            depth == self@,
    {
        self.depth
    }
}

} // verus!
