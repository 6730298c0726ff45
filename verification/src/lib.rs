//! Pandoc-style fenced div containers for rushdown: the line-level rules that
//! decide where a fenced div opens, what it carries and where it closes.

pub mod attributes;
pub mod bytes;
pub mod closer;
pub mod div;
pub mod laws;
pub mod line_laws;
pub mod opener;
pub mod render;


pub use closer::{close_fenced_div, continue_fenced_div, Continuation, OpenCodeBlock};
pub use div::FencedDiv;
pub use opener::{open_fenced_div, parse_opening_fence, FencedDivOpening};
pub use render::{render_fenced_div, render_fenced_div_node, FencedDivHtmlRendererOptions};
