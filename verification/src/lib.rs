//! Translator from a resolved visual layout tree to a flat, ordered stream of
//! page-description drawing operations.
//!
//! The layout engine that parses markup, resolves styles and shapes text is an
//! external collaborator; this crate consumes its results, modelled as plain
//! values, and emits drawing instructions plus resource registrations.

use vstd::prelude::*;

pub mod builtin;
pub mod codec;
pub mod emit;
pub mod geom;
pub mod ingest;
pub mod laws;
pub mod ops;
pub mod page;
pub mod resources;
pub mod tag;
pub mod tree;

verus! {

/// Largest magnitude a coordinate or length may have. Keeping every input
/// coordinate within this bound lets page-space arithmetic (one flip and two
/// additions) stay far from `i64` overflow.
pub const MAX_COORD: i64 = 0x4000_0000;

/// Convert a vertical layout-space coordinate (origin top-left, y down) into
/// a page-space coordinate (origin bottom-left, y up) by flipping it around
/// the page height. Horizontal coordinates never pass through this function.
pub fn to_page_y(layout_y: i64, page_height: i64) -> (r: i64)
    requires
        -MAX_COORD <= layout_y <= MAX_COORD,
        -MAX_COORD <= page_height <= MAX_COORD,
    ensures
        r == page_height - layout_y,
{
    page_height - layout_y
}

} // verus!
