//! The positioned, styled node tree that the translator walks.
//!
//! The external layout engine owns layout solving, cascade resolution and
//! text shaping; the translator only reads the results. This module models
//! those results as plain values: per node a resolved box rectangle, a
//! resolved style snapshot, the node's kind-specific content, and the
//! children in rendering order.

use crate::geom::{coord_ok, layout_rect_wf, LayoutRect, Rgb};
use vstd::prelude::*;

verus! {

/// A resolved style property as the cascade leaves it: either one of the
/// CSS-wide keywords or an exactly specified value.
#[derive(Debug, Clone, Copy, PartialEq, Eq)]
pub enum CssValue<T> {
    Auto,
    NoneValue,
    Inherit,
    Initial,
    Exact(T),
}

/// The resolved display mode of a node.
#[derive(Debug, Clone, Copy, PartialEq, Eq, Structural)]
pub enum LayoutDisplay {
    NoDisplay,
    Block,
    Flex,
    InlineBlock,
}

/// One resolved background declaration. Only solid colours are realized as
/// paint; gradient declarations are carried but produce no instruction, and
/// image-backed backgrounds are dropped at extraction.
#[derive(Debug, Clone, Copy, PartialEq, Eq, Structural)]
pub enum BackgroundContent {
    Color(Rgb),
    LinearGradient,
    RadialGradient,
    ConicGradient,
    Image,
}

/// A resolved background-size modifier, read but not yet applied.
#[derive(Debug, Clone, Copy, PartialEq, Eq, Structural)]
pub enum BackgroundSize {
    Contain,
    Cover,
    ExactSize(i64, i64),
}

/// A resolved background-position modifier, read but not yet applied.
#[derive(Debug, Clone, Copy, PartialEq, Eq, Structural)]
pub struct BackgroundPosition {
    pub x: i64,
    pub y: i64,
}

/// A resolved background-repeat modifier, read but not yet applied.
#[derive(Debug, Clone, Copy, PartialEq, Eq, Structural)]
pub enum BackgroundRepeat {
    NoRepeat,
    Repeat,
    RepeatX,
    RepeatY,
}

/// A resolved border line style.
#[derive(Debug, Clone, Copy, PartialEq, Eq, Structural)]
pub enum BorderStyle {
    NoBorder,
    Solid,
    Dotted,
    Dashed,
}

/// One resolved border property per box edge.
#[derive(Debug, Clone, Copy, PartialEq, Eq)]
pub struct BorderSides<T> {
    pub top: Option<CssValue<T>>,
    pub right: Option<CssValue<T>>,
    pub bottom: Option<CssValue<T>>,
    pub left: Option<CssValue<T>>,
}

/// The resolved corner radii of a node's box.
#[derive(Debug, Clone, Copy, PartialEq, Eq)]
pub struct StyleBorderRadius {
    pub top_left: Option<CssValue<i64>>,
    pub top_right: Option<CssValue<i64>>,
    pub bottom_left: Option<CssValue<i64>>,
    pub bottom_right: Option<CssValue<i64>>,
}

/// One glyph of a shaped text run: the glyph index in its font and the
/// advance-computed position relative to the run's origin.
#[derive(Debug, Clone, Copy, PartialEq, Eq, Structural)]
pub struct GlyphInstance {
    pub index: u16,
    pub x: i64,
    pub y: i64,
}

/// The shaped text content of a text node, as the external shaper leaves
/// it: the glyph run, the resolved font-family key, the font size and the
/// resolved text colour (absent means the default).
#[derive(Debug, Clone, PartialEq, Eq)]
pub struct TextContent {
    pub glyphs: Vec<GlyphInstance>,
    pub font_key: u64,
    pub font_size: i64,
    pub color: Option<Rgb>,
}

/// The kind-specific content of a node. An image node carries the opaque
/// serialized resource descriptor written during asset ingestion, when one
/// was written.
#[derive(Debug, Clone, PartialEq, Eq)]
pub enum NodeContent {
    Container,
    Image { tag: Option<Vec<u8>> },
    Text(TextContent),
}

/// The resolved style snapshot of one node: everything the translator reads.
#[derive(Debug, Clone, PartialEq, Eq)]
pub struct NodeStyle {
    pub display: Option<CssValue<LayoutDisplay>>,
    pub background: Option<CssValue<Vec<BackgroundContent>>>,
    pub background_sizes: Option<CssValue<Vec<BackgroundSize>>>,
    pub background_positions: Option<CssValue<Vec<BackgroundPosition>>>,
    pub background_repeats: Option<CssValue<Vec<BackgroundRepeat>>>,
    pub has_border: bool,
    pub border_widths: BorderSides<i64>,
    pub border_colors: BorderSides<Rgb>,
    pub border_styles: BorderSides<BorderStyle>,
    pub radius_top_left: Option<CssValue<i64>>,
    pub radius_top_right: Option<CssValue<i64>>,
    pub radius_bottom_left: Option<CssValue<i64>>,
    pub radius_bottom_right: Option<CssValue<i64>>,
}

/// One node of the positioned, styled tree, children in rendering order.
#[derive(Debug)]
pub struct RenderNode {
    pub rect: LayoutRect,
    pub style: NodeStyle,
    pub content: NodeContent,
    pub children: Vec<RenderNode>,
}

/// A glyph position small enough for page-space arithmetic.
pub open spec fn glyph_wf(g: GlyphInstance) -> bool {
    &&& coord_ok(g.x)
    &&& coord_ok(g.y)
}

/// Every glyph of a text run is within the coordinate bound.
pub open spec fn text_wf(t: TextContent) -> bool {
    forall|i: int| 0 <= i < t.glyphs@.len() ==> glyph_wf(#[trigger] t.glyphs@[i])
}

/// The content of one node is within the coordinate bounds.
pub open spec fn content_wf(c: NodeContent) -> bool {
    match c {
        NodeContent::Text(t) => text_wf(t),
        _ => true,
    }
}

/// Every rectangle and glyph position in the subtree is within the
/// coordinate bound, so that page-space arithmetic cannot overflow.
pub open spec fn node_wf(n: RenderNode) -> bool
    decreases n,
{
    &&& layout_rect_wf(n.rect)
    &&& content_wf(n.content)
    &&& forall|i: int| 0 <= i < n.children@.len() ==> node_wf(#[trigger] n.children@[i])
}

} // verus!
