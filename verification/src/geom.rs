//! Geometry and colour primitives shared by the whole translator.
//!
//! All lengths use one linear unit, identical between layout space and page
//! space (the scale factor between the two is fixed at one). Layout space has
//! its origin at the top-left corner with y growing downward; page space has
//! its origin at the bottom-left corner with y growing upward.

use vstd::prelude::*;

verus! {

/// A colour with one byte per channel. Consumers that need unit-interval
/// channels divide each byte by 255 when replaying the stream.
#[derive(Clone, Copy, Debug, PartialEq, Eq, Structural)]
pub struct Rgb {
    pub r: u8,
    pub g: u8,
    pub b: u8,
}

/// A rectangle in layout space: `x`/`y` is the top-left origin.
#[derive(Clone, Copy, Debug, PartialEq, Eq, Structural)]
pub struct LayoutRect {
    pub x: i64,
    pub y: i64,
    pub width: i64,
    pub height: i64,
}

/// A rectangle in page space: `x`/`y` is the anchor after the vertical flip.
#[derive(Clone, Copy, Debug, PartialEq, Eq, Structural)]
pub struct PageRect {
    pub x: i64,
    pub y: i64,
    pub width: i64,
    pub height: i64,
}

/// An exact scale factor `num / den`, kept as a ratio so that no rounding
/// happens inside the translator; consumers divide when replaying. The
/// denominator is an intrinsic image dimension and is never zero in an
/// emitted instruction.
#[derive(Clone, Copy, Debug, PartialEq, Eq, Structural)]
pub struct Scale {
    pub num: i64,
    pub den: u64,
}

/// A coordinate or length small enough for page-space arithmetic.
pub open spec fn coord_ok(v: i64) -> bool {
    -(crate::MAX_COORD as int) <= v <= crate::MAX_COORD as int
}

/// Every field of a layout rectangle is within the coordinate bound.
pub open spec fn layout_rect_wf(r: LayoutRect) -> bool {
    &&& coord_ok(r.x)
    &&& coord_ok(r.y)
    &&& coord_ok(r.width)
    &&& coord_ok(r.height)
}

/// The page-space image of a layout rectangle: the origin's vertical
/// coordinate flips around the page height, everything else is unchanged.
pub open spec fn page_rect_of(r: LayoutRect, page_height: i64) -> PageRect {
    PageRect {
        x: r.x,
        y: (page_height - r.y) as i64,
        width: r.width,
        height: r.height,
    }
}

/// Convert a layout rectangle into page space. This and [`crate::to_page_y`]
/// are the only places that flip the vertical axis: centralizing the flip
/// prevents double-flips elsewhere.
pub fn layout_to_page_rect(r: &LayoutRect, page_height: i64) -> (p: PageRect)
    requires
        layout_rect_wf(*r),
        coord_ok(page_height),
    ensures
        p == page_rect_of(*r, page_height),
{
    PageRect {
        x: r.x,
        y: crate::to_page_y(r.y, page_height),
        width: r.width,
        height: r.height,
    }
}

} // verus!
