//! Typing-animation SVG generation: the decisions, text layout and SVG
//! assembly behind rendering messages as an animated typewriter.
use vstd::prelude::*;

pub mod text;
pub mod order;
pub mod font;
pub mod cli;
pub mod svg_path;
pub mod number;
pub mod glyph;
pub mod timing;
pub mod svg;

verus! {
} // verus!
