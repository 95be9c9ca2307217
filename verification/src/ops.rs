//! The drawing-operation vocabulary: the flat, ordered, replayable stream of
//! instructions that constitutes one page's visual content.
//!
//! The stream is stateful: a state-setting instruction (fill colour, outline
//! colour or thickness, text matrix) takes effect on the primitive that
//! follows it, so emission order is a correctness requirement.

use crate::geom::{PageRect, Rgb, Scale};
use vstd::prelude::*;

verus! {

/// How glyphs are painted inside a text section.
#[derive(Clone, Copy, Debug, PartialEq, Eq, Structural)]
pub enum TextRenderingMode {
    Fill,
    Stroke,
    FillStroke,
    Invisible,
}

/// One drawing instruction.
#[derive(Debug, Clone, PartialEq)]
pub enum Op {
    /// Push the current graphics state.
    SaveGraphicsState,
    /// Pop the most recently saved graphics state.
    RestoreGraphicsState,
    /// Set the fill colour consumed by the next filled primitive or glyph run.
    SetFillColor { color: Rgb },
    /// Fill a rectangle, given in page space.
    DrawPolygon { rect: PageRect },
    /// Set the outline thickness consumed by the next outlined primitive.
    SetOutlineThickness { thickness: i64 },
    /// Set the outline colour consumed by the next outlined primitive.
    SetOutlineColor { color: Rgb },
    /// Stroke the outline of a rectangle, given in page space.
    DrawLine { rect: PageRect },
    /// Place a previously registered external resource (raster image or
    /// vector graphic), translated and scaled independently per axis.
    UseXObject {
        id: String,
        translate_x: i64,
        translate_y: i64,
        scale_x: Scale,
        scale_y: Scale,
    },
    /// Open a text section; text state below applies until it is closed.
    StartTextSection,
    /// Close the innermost open text section.
    EndTextSection,
    /// Set the glyph painting mode for the current text section.
    SetTextRenderingMode { mode: TextRenderingMode },
    /// Set word spacing, in percent.
    SetWordSpacing { percent: i64 },
    /// Set the line height for the current text section.
    SetLineHeight { size: i64 },
    /// Reset the text cursor to the given page-space position.
    SetTextCursor { x: i64, y: i64 },
    /// Set the text transform to a pure translation, in page space.
    SetTextMatrix { translate_x: i64, translate_y: i64 },
    /// Draw glyphs from an embedded font: pairs of glyph index and the
    /// character they stand for.
    WriteCodepoints { font: String, size: i64, cp: Vec<(u16, char)> },
}

/// The mathematical value of an [`Op`]: identical shape, with owned strings
/// and vectors replaced by their sequence views, so that two instruction
/// streams can be compared as values in contracts.
pub enum OpS {
    SaveGraphicsState,
    RestoreGraphicsState,
    SetFillColor { color: Rgb },
    DrawPolygon { rect: PageRect },
    SetOutlineThickness { thickness: i64 },
    SetOutlineColor { color: Rgb },
    DrawLine { rect: PageRect },
    UseXObject {
        id: Seq<char>,
        translate_x: i64,
        translate_y: i64,
        scale_x: Scale,
        scale_y: Scale,
    },
    StartTextSection,
    EndTextSection,
    SetTextRenderingMode { mode: TextRenderingMode },
    SetWordSpacing { percent: i64 },
    SetLineHeight { size: i64 },
    SetTextCursor { x: i64, y: i64 },
    SetTextMatrix { translate_x: i64, translate_y: i64 },
    WriteCodepoints { font: Seq<char>, size: i64, cp: Seq<(u16, char)> },
}

impl View for Op {
    type V = OpS;

    open spec fn view(&self) -> OpS {
        match self {
            Op::SaveGraphicsState => OpS::SaveGraphicsState,
            Op::RestoreGraphicsState => OpS::RestoreGraphicsState,
            Op::SetFillColor { color } => OpS::SetFillColor { color: *color },
            Op::DrawPolygon { rect } => OpS::DrawPolygon { rect: *rect },
            Op::SetOutlineThickness { thickness } => (OpS::SetOutlineThickness {
                thickness: *thickness,
            }),
            Op::SetOutlineColor { color } => OpS::SetOutlineColor { color: *color },
            Op::DrawLine { rect } => OpS::DrawLine { rect: *rect },
            Op::UseXObject { id, translate_x, translate_y, scale_x, scale_y } => (OpS::UseXObject {
                id: id@,
                translate_x: *translate_x,
                translate_y: *translate_y,
                scale_x: *scale_x,
                scale_y: *scale_y,
            }),
            Op::StartTextSection => OpS::StartTextSection,
            Op::EndTextSection => OpS::EndTextSection,
            Op::SetTextRenderingMode { mode } => OpS::SetTextRenderingMode { mode: *mode },
            Op::SetWordSpacing { percent } => OpS::SetWordSpacing { percent: *percent },
            Op::SetLineHeight { size } => OpS::SetLineHeight { size: *size },
            Op::SetTextCursor { x, y } => OpS::SetTextCursor { x: *x, y: *y },
            Op::SetTextMatrix { translate_x, translate_y } => (OpS::SetTextMatrix {
                translate_x: *translate_x,
                translate_y: *translate_y,
            }),
            Op::WriteCodepoints { font, size, cp } => (OpS::WriteCodepoints {
                font: font@,
                size: *size,
                cp: cp@,
            }),
        }
    }
}

/// The value of a whole instruction stream.
pub open spec fn ops_view(s: Seq<Op>) -> Seq<OpS> {
    s.map_values(|op: Op| op@)
}

/// Appending one instruction appends its value to the stream view.
pub proof fn lemma_ops_view_push(a: Seq<Op>, op: Op)
    ensures
        ops_view(a.push(op)) == ops_view(a).push(op@),
{
    assert(ops_view(a.push(op)) =~= ops_view(a).push(op@));
}

} // verus!
