//! The per-node visual extractor and the operation emitter / tree walker.
//!
//! The walker visits the tree in painter's order (parent before children,
//! children in declaration order), skips hidden subtrees entirely, and per
//! node emits a fixed-order, bracketed block of drawing instructions:
//! background fills and the border stroke inside one save/restore bracket,
//! then the image placement, then the text section. The whole emission is a
//! pure function of the tree, the page height and the font tables, stated
//! by the `*_s` specification functions and proved of the executable code.

use crate::geom::{coord_ok, layout_rect_wf, page_rect_of, LayoutRect, Rgb, Scale};
use crate::ops::{ops_view, Op, OpS, TextRenderingMode};
use crate::resources::{FontResources, FontSource, ImageInfo, ImageInfoS};
use crate::tag::{font_name_chars, font_resource_name, parse_image_info_s};
use crate::tree::{
    content_wf, node_wf, text_wf, BackgroundContent, BackgroundPosition, BackgroundRepeat,
    BackgroundSize, BorderSides, BorderStyle, CssValue, GlyphInstance, LayoutDisplay, NodeContent,
    NodeStyle, RenderNode, StyleBorderRadius, TextContent,
};
use vstd::prelude::*;

verus! {

// ----------------------------------------------------------- visibility

/// Whether a node's resolved display property removes it (and its subtree)
/// from the render tree: either the property is the `none` keyword or it
/// resolves exactly to the `none` display mode. An unset property leaves
/// the node visible.
pub open spec fn is_display_none_s(style: NodeStyle) -> bool {
    match style.display {
        Option::Some(CssValue::NoneValue) => true,
        Option::Some(CssValue::Exact(LayoutDisplay::NoDisplay)) => true,
        _ => false,
    }
}

/// Test whether a node is set to `display: none`.
pub fn is_display_none(node: &RenderNode) -> (r: bool)
    ensures
        r == is_display_none_s(node.style),
{
    match &node.style.display {
        Option::Some(CssValue::NoneValue) => true,
        Option::Some(CssValue::Exact(LayoutDisplay::NoDisplay)) => true,
        _ => false,
    }
}

// -------------------------------------------------------- border radius

/// Gather the four resolved corner radii of a node.
pub fn get_border_radius(node: &RenderNode) -> (r: StyleBorderRadius)
    ensures
        r == (StyleBorderRadius {
            top_left: node.style.radius_top_left,
            top_right: node.style.radius_top_right,
            bottom_left: node.style.radius_bottom_left,
            bottom_right: node.style.radius_bottom_right,
        }),
{
    StyleBorderRadius {
        top_left: node.style.radius_top_left,
        top_right: node.style.radius_top_right,
        bottom_left: node.style.radius_bottom_left,
        bottom_right: node.style.radius_bottom_right,
    }
}

// ----------------------------------------------------------- backgrounds

/// One extracted background paint layer: the realized content with the
/// modifiers read alongside it.
#[derive(Debug, Clone, Copy, PartialEq, Eq)]
pub struct LayoutRectContentBackground {
    pub content: BackgroundContent,
    pub size: Option<BackgroundSize>,
    pub offset: Option<BackgroundPosition>,
    pub repeat: Option<BackgroundRepeat>,
}

/// The list a background list property resolves to: only an exactly
/// specified list counts, anything else is no list at all.
pub open spec fn exact_list<T>(p: Option<CssValue<Vec<T>>>) -> Option<Seq<T>> {
    match p {
        Option::Some(CssValue::Exact(v)) => Option::Some(v@),
        _ => Option::None,
    }
}

/// The realized content of one background declaration: image-backed
/// backgrounds are dropped, everything else is kept.
pub open spec fn bg_content_of(b: BackgroundContent) -> Option<BackgroundContent> {
    match b {
        BackgroundContent::Image => Option::None,
        other => Option::Some(other),
    }
}

/// The modifier paired with the background layer at `i`: the modifier at
/// the same index when the list has one, else the list's first entry, else
/// nothing.
pub open spec fn nth_modifier<T>(list: Option<Seq<T>>, i: int) -> Option<T> {
    let l = match list {
        Option::Some(l) => l,
        Option::None => Seq::<T>::empty(),
    };
    if 0 <= i < l.len() {
        Option::Some(l[i])
    } else if l.len() > 0 {
        Option::Some(l[0])
    } else {
        Option::None
    }
}

/// The background layers of a node from declaration `i` on.
pub open spec fn background_layers_from(
    bgs: Seq<BackgroundContent>,
    sizes: Option<Seq<BackgroundSize>>,
    positions: Option<Seq<BackgroundPosition>>,
    repeats: Option<Seq<BackgroundRepeat>>,
    i: int,
) -> Seq<LayoutRectContentBackground>
    decreases bgs.len() - i,
{
    if i < 0 || i >= bgs.len() {
        Seq::empty()
    } else {
        let rest = background_layers_from(bgs, sizes, positions, repeats, i + 1);
        match bg_content_of(bgs[i]) {
            Option::Some(content) => seq![
                LayoutRectContentBackground {
                    content,
                    size: nth_modifier(sizes, i),
                    offset: nth_modifier(positions, i),
                    repeat: nth_modifier(repeats, i),
                },
            ] + rest,
            Option::None => rest,
        }
    }
}

/// All background layers of a node: nothing when the background property is
/// absent or not an exact list.
pub open spec fn background_layers_s(style: NodeStyle) -> Seq<LayoutRectContentBackground> {
    match exact_list(style.background) {
        Option::None => Seq::empty(),
        Option::Some(bgs) => background_layers_from(
            bgs,
            exact_list(style.background_sizes),
            exact_list(style.background_positions),
            exact_list(style.background_repeats),
            0,
        ),
    }
}

/// Pick the modifier for layer `i` from an optional modifier list.
fn nth_modifier_of<T: Copy>(list: &Option<Vec<T>>, i: usize) -> (r: Option<T>)
    ensures
        r == nth_modifier(
            match list {
                Option::Some(l) => Option::Some(l@),
                Option::None => Option::None,
            },
            i as int,
        ),
{
    match list {
        Option::Some(l) => {
            if i < l.len() {
                Option::Some(l[i])
            } else if l.len() > 0 {
                Option::Some(l[0])
            } else {
                Option::None
            }
        },
        Option::None => Option::None,
    }
}

/// Extract the background paint layers of one node: each exactly declared
/// background, image-backed ones dropped, paired with the size, position
/// and repeat modifiers at its index (or their lists' first entries).
#[verifier::loop_isolation(false)]
pub fn get_background_content(node: &RenderNode) -> (r: Vec<LayoutRectContentBackground>)
    ensures
        r@ == background_layers_s(node.style),
{
    let mut v: Vec<LayoutRectContentBackground> = Vec::new();
    let bgs: &Vec<BackgroundContent> = match &node.style.background {
        Option::Some(CssValue::Exact(b)) => b,
        _ => {
            return v;
        },
    };
    let sizes: Option<Vec<BackgroundSize>> = match &node.style.background_sizes {
        Option::Some(CssValue::Exact(l)) => Option::Some(l.clone()),
        _ => Option::None,
    };
    let positions: Option<Vec<BackgroundPosition>> = match &node.style.background_positions {
        Option::Some(CssValue::Exact(l)) => Option::Some(l.clone()),
        _ => Option::None,
    };
    let repeats: Option<Vec<BackgroundRepeat>> = match &node.style.background_repeats {
        Option::Some(CssValue::Exact(l)) => Option::Some(l.clone()),
        _ => Option::None,
    };
    let ghost sizes_s = exact_list(node.style.background_sizes);
    let ghost positions_s = exact_list(node.style.background_positions);
    let ghost repeats_s = exact_list(node.style.background_repeats);
    proof {
        assert(match sizes {
            Option::Some(l) => Option::Some(l@),
            Option::None => Option::<Seq<BackgroundSize>>::None,
        } == sizes_s);
        assert(match positions {
            Option::Some(l) => Option::Some(l@),
            Option::None => Option::<Seq<BackgroundPosition>>::None,
        } == positions_s);
        assert(match repeats {
            Option::Some(l) => Option::Some(l@),
            Option::None => Option::<Seq<BackgroundRepeat>>::None,
        } == repeats_s);
    }
    let mut i: usize = 0;
    while i < bgs.len()
        invariant
            i <= bgs@.len(),
            background_layers_s(node.style) == v@ + background_layers_from(
                bgs@,
                sizes_s,
                positions_s,
                repeats_s,
                i as int,
            ),
            match sizes {
                Option::Some(l) => Option::Some(l@),
                Option::None => Option::<Seq<BackgroundSize>>::None,
            } == sizes_s,
            match positions {
                Option::Some(l) => Option::Some(l@),
                Option::None => Option::<Seq<BackgroundPosition>>::None,
            } == positions_s,
            match repeats {
                Option::Some(l) => Option::Some(l@),
                Option::None => Option::<Seq<BackgroundRepeat>>::None,
            } == repeats_s,
        decreases bgs@.len() - i,
    {
        let content_opt: Option<BackgroundContent> = match bgs[i] {
            BackgroundContent::Image => Option::None,
            other => Option::Some(other),
        };
        match content_opt {
            Option::Some(content) => {
                let layer = LayoutRectContentBackground {
                    content,
                    size: nth_modifier_of(&sizes, i),
                    offset: nth_modifier_of(&positions, i),
                    repeat: nth_modifier_of(&repeats, i),
                };
                proof {
                    assert((v@ + background_layers_from(
                        bgs@,
                        sizes_s,
                        positions_s,
                        repeats_s,
                        i as int,
                    )) =~= (v@.push(layer) + background_layers_from(
                        bgs@,
                        sizes_s,
                        positions_s,
                        repeats_s,
                        i as int + 1,
                    )));
                }
                v.push(layer);
            },
            Option::None => {
                proof {
                    assert(background_layers_from(bgs@, sizes_s, positions_s, repeats_s, i as int)
                        == background_layers_from(
                        bgs@,
                        sizes_s,
                        positions_s,
                        repeats_s,
                        i as int + 1,
                    ));
                }
            },
        }
        i = i + 1;
    }
    v
}

// --------------------------------------------------------------- border

/// The extracted border paint layer: resolved widths, colours and styles
/// per edge.
#[derive(Debug, Clone, Copy, PartialEq, Eq)]
pub struct LayoutRectContentBorder {
    pub widths: BorderSides<i64>,
    pub colors: BorderSides<Rgb>,
    pub styles: BorderSides<BorderStyle>,
}

/// The border layer of a node, when it declares any border.
pub open spec fn border_of(style: NodeStyle) -> Option<LayoutRectContentBorder> {
    if style.has_border {
        Option::Some(
            LayoutRectContentBorder {
                widths: style.border_widths,
                colors: style.border_colors,
                styles: style.border_styles,
            },
        )
    } else {
        Option::None
    }
}

/// Extract the border paint layer of one node, if it declares any border.
pub fn get_opt_border(node: &RenderNode) -> (r: Option<LayoutRectContentBorder>)
    ensures
        r == border_of(node.style),
{
    if node.style.has_border {
        Option::Some(
            LayoutRectContentBorder {
                widths: node.style.border_widths,
                colors: node.style.border_colors,
                styles: node.style.border_styles,
            },
        )
    } else {
        Option::None
    }
}

// ---------------------------------------------------------------- image

/// The resource descriptor an image node carries: the parse of its opaque
/// tag, when the node is an image node and a tag was written.
pub open spec fn image_info_of(content: NodeContent) -> Option<ImageInfoS> {
    match content {
        NodeContent::Image { tag: Option::Some(t) } => parse_image_info_s(t@),
        _ => Option::None,
    }
}

/// Recover the resource descriptor of an image node. Nothing for non-image
/// nodes, untagged image nodes, and tags that do not parse: all are
/// "nothing to draw", never an error.
pub fn get_image_node(node: &RenderNode) -> (r: Option<ImageInfo>)
    ensures
        match r {
            Option::Some(info) => image_info_of(node.content) == Option::Some(info@),
            Option::None => image_info_of(node.content) is None,
        },
{
    match &node.content {
        NodeContent::Image { tag: Option::Some(t) } => crate::tag::parse_image_info(t.as_slice()),
        _ => Option::None,
    }
}

// ----------------------------------------------------------------- text

/// Whether a font for `key` can be produced: it is already registered, or
/// its payload decodes.
pub open spec fn font_found(reg: Seq<u64>, avail: Seq<u64>, key: u64) -> bool {
    reg.contains(key) || avail.contains(key)
}

/// The font table's registered keys after one text node needing `key`:
/// registered once, lazily, only when the payload decodes; never removed
/// or overwritten.
pub open spec fn reg_after(reg: Seq<u64>, avail: Seq<u64>, key: u64) -> Seq<u64> {
    if reg.contains(key) {
        reg
    } else if avail.contains(key) {
        reg.push(key)
    } else {
        reg
    }
}

/// The decode log after one text node needing `key`: a registered key is a
/// cache hit and decodes nothing; any other key costs one decode attempt.
pub open spec fn log_after(log: Seq<u64>, reg: Seq<u64>, key: u64) -> Seq<u64> {
    if reg.contains(key) {
        log
    } else {
        log.push(key)
    }
}

/// The resolved text colour of a run: the declared colour, or black.
pub open spec fn text_color_or_default(t: TextContent) -> Rgb {
    match t.color {
        Option::Some(c) => c,
        Option::None => Rgb { r: 0, g: 0, b: 0 },
    }
}

/// Resolve the text layer of one node: nothing unless the node is a text
/// node whose font resolves. Resolving looks the family key up in the
/// document's font table; on a miss it decodes the payload once and
/// registers it, first-writer-wins. A payload that does not decode drops
/// the text layer silently rather than aborting the render.
pub fn get_text_node<'a>(
    node: &'a RenderNode,
    res: &mut FontResources,
    source: &FontSource,
) -> (r: Option<(&'a TextContent, String, Rgb, u16)>)
    ensures
        final(res).registered@ == (match node.content {
            NodeContent::Text(t) => reg_after(
                old(res).registered@,
                source.available@,
                t.font_key,
            ),
            _ => old(res).registered@,
        }),
        final(res).decode_log@ == (match node.content {
            NodeContent::Text(t) => log_after(old(res).decode_log@, old(res).registered@, t.font_key),
            _ => old(res).decode_log@,
        }),
        match node.content {
            NodeContent::Text(t) => {
                &&& r is Some <==> font_found(old(res).registered@, source.available@, t.font_key)
                &&& (r matches Some(p) ==> *p.0 == t && p.1@ == font_name_chars(t.font_key) && p.2
                    == text_color_or_default(t) && p.3 == 0)
            },
            _ => r is None,
        },
{
    let t: &TextContent = match &node.content {
        NodeContent::Text(t) => t,
        _ => {
            return Option::None;
        },
    };
    let color = match t.color {
        Option::Some(c) => c,
        Option::None => Rgb { r: 0, g: 0, b: 0 },
    };
    if res.is_registered(t.font_key) {
        Option::Some((t, font_resource_name(t.font_key), color, 0))
    } else {
        res.decode_log.push(t.font_key);
        if source.can_decode(t.font_key) {
            res.registered.push(t.font_key);
            Option::Some((t, font_resource_name(t.font_key), color, 0))
        } else {
            Option::None
        }
    }
}

// ------------------------------------------------- per-node instructions

/// The fill instructions of the background layers from `i` on: each solid
/// colour sets the fill colour and fills the node's page-space rectangle;
/// gradient layers produce no instruction yet.
pub open spec fn fill_ops_from(
    layers: Seq<LayoutRectContentBackground>,
    rect: LayoutRect,
    ph: i64,
    i: int,
) -> Seq<OpS>
    decreases layers.len() - i,
{
    if i < 0 || i >= layers.len() {
        Seq::empty()
    } else {
        let rest = fill_ops_from(layers, rect, ph, i + 1);
        match layers[i].content {
            BackgroundContent::Color(c) => seq![
                OpS::SetFillColor { color: c },
                OpS::DrawPolygon { rect: page_rect_of(rect, ph) },
            ] + rest,
            _ => rest,
        }
    }
}

/// The resolved width of one border edge: only an exact value counts.
pub open spec fn side_width(w: Option<CssValue<i64>>) -> i64 {
    match w {
        Option::Some(CssValue::Exact(x)) => x,
        _ => 0,
    }
}

/// The resolved colour of one border edge: only an exact value counts.
pub open spec fn side_color(c: Option<CssValue<Rgb>>) -> Rgb {
    match c {
        Option::Some(CssValue::Exact(x)) => x,
        _ => Rgb { r: 0, g: 0, b: 0 },
    }
}

/// The stroke instructions of the border layer: one representative outline
/// around the page-space box, using the top edge's resolved width and
/// colour for all four edges (per-edge stroking is a known limitation).
pub open spec fn border_ops(b: LayoutRectContentBorder, rect: LayoutRect, ph: i64) -> Seq<OpS> {
    seq![
        OpS::SetOutlineThickness { thickness: side_width(b.widths.top) },
        OpS::SetOutlineColor { color: side_color(b.colors.top) },
        OpS::DrawLine { rect: page_rect_of(rect, ph) },
    ]
}

/// The placement instruction of the image layer: nothing without a parsed
/// descriptor, and nothing when the target box or the intrinsic size has a
/// zero dimension (suppressing degenerate zero-scale transforms);
/// otherwise one placement with the flipped origin and one exact scale
/// ratio per axis (stretch-to-fit, aspect ratio not preserved).
pub open spec fn image_ops(info: Option<ImageInfoS>, rect: LayoutRect, ph: i64) -> Seq<OpS> {
    match info {
        Option::None => Seq::empty(),
        Option::Some(inf) => {
            if rect.width == 0 || rect.height == 0 || inf.width == 0 || inf.height == 0 {
                Seq::empty()
            } else {
                seq![
                    OpS::UseXObject {
                        id: inf.xobject_id,
                        translate_x: rect.x,
                        translate_y: (ph - rect.y) as i64,
                        scale_x: (Scale { num: rect.width, den: inf.width as u64 }),
                        scale_y: (Scale { num: rect.height, den: inf.height as u64 }),
                    },
                ]
            }
        },
    }
}

/// The instructions of the glyphs from `i` on: per glyph, reset the text
/// cursor, translate to the box origin plus the glyph's advance (vertical
/// coordinate flipped), and draw the glyph at the run's font size.
pub open spec fn glyph_ops_from(
    glyphs: Seq<GlyphInstance>,
    font: Seq<char>,
    size: i64,
    rect: LayoutRect,
    ph: i64,
    i: int,
) -> Seq<OpS>
    decreases glyphs.len() - i,
{
    if i < 0 || i >= glyphs.len() {
        Seq::empty()
    } else {
        let g = glyphs[i];
        seq![
            OpS::SetTextCursor { x: 0, y: 0 },
            OpS::SetTextMatrix {
                translate_x: (rect.x + g.x) as i64,
                translate_y: (ph - rect.y - g.y) as i64,
            },
            OpS::WriteCodepoints { font: font, size: size, cp: seq![(g.index, ' ')] },
        ] + glyph_ops_from(glyphs, font, size, rect, ph, i + 1)
    }
}

/// The instructions of the text layer: a text section that sets the fill
/// colour to the text colour, fill rendering mode, full word spacing and
/// the line height, draws every glyph, and closes.
pub open spec fn text_ops(t: TextContent, font: Seq<char>, rect: LayoutRect, ph: i64) -> Seq<OpS> {
    seq![
        OpS::StartTextSection,
        OpS::SetFillColor { color: text_color_or_default(t) },
        OpS::SetTextRenderingMode { mode: TextRenderingMode::Fill },
        OpS::SetWordSpacing { percent: 100 },
        OpS::SetLineHeight { size: t.font_size },
    ] + glyph_ops_from(t.glyphs@, font, t.font_size, rect, ph, 0) + seq![OpS::EndTextSection]
}

/// Every instruction one visible node emits for itself, in fixed order:
/// the background fills and the border stroke inside one save/restore
/// bracket (only when at least one such instruction exists), then the
/// image placement, then the text section.
pub open spec fn node_own_ops(node: RenderNode, ph: i64, reg: Seq<u64>, avail: Seq<u64>) -> Seq<
    OpS,
> {
    let bg = fill_ops_from(background_layers_s(node.style), node.rect, ph, 0);
    let bd = match border_of(node.style) {
        Option::Some(b) => border_ops(b, node.rect, ph),
        Option::None => Seq::empty(),
    };
    let boxed = if bg.len() + bd.len() > 0 {
        seq![OpS::SaveGraphicsState] + bg + bd + seq![OpS::RestoreGraphicsState]
    } else {
        Seq::empty()
    };
    let img = image_ops(image_info_of(node.content), node.rect, ph);
    let txt = match node.content {
        NodeContent::Text(t) => {
            if font_found(reg, avail, t.font_key) {
                text_ops(t, font_name_chars(t.font_key), node.rect, ph)
            } else {
                Seq::empty()
            }
        },
        _ => Seq::empty(),
    };
    boxed + img + txt
}

/// The font table's registered keys after one visible node.
pub open spec fn node_reg_after(node: RenderNode, reg: Seq<u64>, avail: Seq<u64>) -> Seq<u64> {
    match node.content {
        NodeContent::Text(t) => reg_after(reg, avail, t.font_key),
        _ => reg,
    }
}

/// The decode log after one visible node.
pub open spec fn node_log_after(node: RenderNode, log: Seq<u64>, reg: Seq<u64>) -> Seq<u64> {
    match node.content {
        NodeContent::Text(t) => log_after(log, reg, t.font_key),
        _ => log,
    }
}

/// Emit every instruction of one node into `ops`: nothing for a hidden
/// node (returning nothing so that the caller skips its subtree), else
/// exactly [`node_own_ops`], with the font table advancing as the text
/// layer's resolution demands.
#[verifier::loop_isolation(false)]
pub fn displaylist_handle_rect(
    ops: &mut Vec<Op>,
    node: &RenderNode,
    page_height: i64,
    res: &mut FontResources,
    source: &FontSource,
) -> (r: Option<()>)
    requires
        layout_rect_wf(node.rect),
        content_wf(node.content),
        coord_ok(page_height),
    ensures
        r is Some <==> !is_display_none_s(node.style),
        is_display_none_s(node.style) ==> {
            &&& final(ops)@ == old(ops)@
            &&& final(res).registered@ == old(res).registered@
            &&& final(res).decode_log@ == old(res).decode_log@
        },
        !is_display_none_s(node.style) ==> {
            &&& ops_view(final(ops)@) == ops_view(old(ops)@) + node_own_ops(
                *node,
                page_height,
                old(res).registered@,
                source.available@,
            )
            &&& final(res).registered@ == node_reg_after(
                *node,
                old(res).registered@,
                source.available@,
            )
            &&& final(res).decode_log@ == node_log_after(
                *node,
                old(res).decode_log@,
                old(res).registered@,
            )
        },
{
    if is_display_none(node) {
        return Option::None;
    }
    let ghost reg0 = res.registered@;
    let ghost avail = source.available@;
    let background_content = get_background_content(node);
    let opt_border = get_opt_border(node);
    let opt_image = get_image_node(node);
    let opt_text = get_text_node(node, res, source);

    let ghost bg_layers = background_layers_s(node.style);
    let ghost bg_spec = fill_ops_from(bg_layers, node.rect, page_height, 0);
    let ghost bd_spec = match border_of(node.style) {
        Option::Some(b) => border_ops(b, node.rect, page_height),
        Option::None => Seq::<OpS>::empty(),
    };

    let mut newops: Vec<Op> = Vec::new();
    let mut i: usize = 0;
    while i < background_content.len()
        invariant
            i <= background_content@.len(),
            bg_spec == ops_view(newops@) + fill_ops_from(bg_layers, node.rect, page_height, i as int),
        decreases background_content@.len() - i,
    {
        match background_content[i].content {
            BackgroundContent::Color(c) => {
                let prect = crate::geom::layout_to_page_rect(&node.rect, page_height);
                proof {
                    crate::ops::lemma_ops_view_push(newops@, (Op::SetFillColor { color: c }));
                    crate::ops::lemma_ops_view_push(
                        newops@.push((Op::SetFillColor { color: c })),
                        (Op::DrawPolygon { rect: page_rect_of(node.rect, page_height) }),
                    );
                    assert((ops_view(newops@) + seq![
                        OpS::SetFillColor { color: c },
                        OpS::DrawPolygon { rect: page_rect_of(node.rect, page_height) },
                    ]) + fill_ops_from(bg_layers, node.rect, page_height, i as int + 1)
                        =~= ops_view(newops@) + fill_ops_from(
                        bg_layers,
                        node.rect,
                        page_height,
                        i as int,
                    ));
                }
                newops.push(Op::SetFillColor { color: c });
                newops.push(Op::DrawPolygon { rect: prect });
            },
            _ => {},
        }
        i = i + 1;
    }
    proof {
        assert(ops_view(newops@) == bg_spec);
    }

    match &opt_border {
        Option::Some(border) => {
            let w: i64 = match border.widths.top {
                Option::Some(CssValue::Exact(x)) => x,
                _ => 0,
            };
            let c: Rgb = match border.colors.top {
                Option::Some(CssValue::Exact(x)) => x,
                _ => Rgb { r: 0, g: 0, b: 0 },
            };
            let prect = crate::geom::layout_to_page_rect(&node.rect, page_height);
            newops.push(Op::SetOutlineThickness { thickness: w });
            newops.push(Op::SetOutlineColor { color: c });
            newops.push(Op::DrawLine { rect: prect });
            proof {
                assert(ops_view(newops@) =~= bg_spec + bd_spec);
            }
        },
        Option::None => {
            proof {
                assert(ops_view(newops@) =~= bg_spec + bd_spec);
            }
        },
    }

    let ghost boxed_spec = if bg_spec.len() + bd_spec.len() > 0 {
        seq![OpS::SaveGraphicsState] + bg_spec + bd_spec + seq![OpS::RestoreGraphicsState]
    } else {
        Seq::<OpS>::empty()
    };
    let ghost base = ops_view(old(ops)@);
    if newops.len() > 0 {
        ops.push(Op::SaveGraphicsState);
        ops.append(&mut newops);
        ops.push(Op::RestoreGraphicsState);
        proof {
            assert(ops_view(ops@) =~= base + boxed_spec);
        }
    } else {
        proof {
            assert(ops_view(ops@) =~= base + boxed_spec);
        }
    }

    let ghost img_spec = image_ops(image_info_of(node.content), node.rect, page_height);
    match &opt_image {
        Option::Some(info) => {
            if !(node.rect.width == 0 || node.rect.height == 0 || info.width == 0 || info.height
                == 0) {
                let op = Op::UseXObject {
                    id: info.xobject_id.clone(),
                    translate_x: node.rect.x,
                    translate_y: crate::to_page_y(node.rect.y, page_height),
                    scale_x: Scale { num: node.rect.width, den: info.width as u64 },
                    scale_y: Scale { num: node.rect.height, den: info.height as u64 },
                };
                ops.push(op);
                proof {
                    assert(ops_view(ops@) =~= base + boxed_spec + img_spec);
                }
            } else {
                proof {
                    assert(ops_view(ops@) =~= base + boxed_spec + img_spec);
                }
            }
        },
        Option::None => {
            proof {
                assert(ops_view(ops@) =~= base + boxed_spec + img_spec);
            }
        },
    }

    let ghost txt_spec = match &node.content {
        NodeContent::Text(t) => {
            if font_found(reg0, avail, t.font_key) {
                text_ops(*t, font_name_chars(t.font_key), node.rect, page_height)
            } else {
                Seq::<OpS>::empty()
            }
        },
        _ => Seq::<OpS>::empty(),
    };
    match opt_text {
        Option::Some((t, id, color, _word_index)) => {
            emit_text_ops(ops, t, id, color, node.rect, page_height);
            proof {
                assert(ops_view(ops@) =~= base + boxed_spec + img_spec + txt_spec);
            }
        },
        Option::None => {
            proof {
                assert(ops_view(ops@) =~= base + boxed_spec + img_spec + txt_spec);
            }
        },
    }
    proof {
        assert(ops_view(ops@) =~= base + node_own_ops(*node, page_height, reg0, avail));
    }
    Option::Some(())
}

/// Emit one text section: the header state instructions, every glyph, and
/// the closing instruction.
#[verifier::loop_isolation(false)]
fn emit_text_ops(
    ops: &mut Vec<Op>,
    t: &TextContent,
    id: String,
    color: Rgb,
    rect: LayoutRect,
    ph: i64,
)
    requires
        text_wf(*t),
        layout_rect_wf(rect),
        coord_ok(ph),
        color == text_color_or_default(*t),
    ensures
        ops_view(final(ops)@) == ops_view(old(ops)@) + text_ops(*t, id@, rect, ph),
{
    let ghost base = ops_view(old(ops)@);
    ops.push(Op::StartTextSection);
    ops.push(Op::SetFillColor { color });
    ops.push(Op::SetTextRenderingMode { mode: TextRenderingMode::Fill });
    ops.push(Op::SetWordSpacing { percent: 100 });
    ops.push(Op::SetLineHeight { size: t.font_size });
    let ghost text_head = ops_view(ops@);
    let ghost gops = glyph_ops_from(t.glyphs@, id@, t.font_size, rect, ph, 0);
    proof {
        lemma_glyph_ops_len(t.glyphs@, id@, t.font_size, rect, ph, 0);
        assert(text_head =~= base + seq![
            OpS::StartTextSection,
            OpS::SetFillColor { color },
            OpS::SetTextRenderingMode { mode: TextRenderingMode::Fill },
            OpS::SetWordSpacing { percent: 100 },
            OpS::SetLineHeight { size: t.font_size },
        ]);
        assert(ops_view(ops@) =~= text_head + gops.take(0));
    }
    let mut gi: usize = 0;
    while gi < t.glyphs.len()
        invariant
            gi <= t.glyphs@.len(),
            ops_view(ops@) == text_head + gops.take(3 * gi as int),
        decreases t.glyphs@.len() - gi,
    {
        let g = t.glyphs[gi];
        let ty = crate::to_page_y(rect.y, ph) - g.y;
        ops.push(Op::SetTextCursor { x: 0, y: 0 });
        ops.push(Op::SetTextMatrix { translate_x: rect.x + g.x, translate_y: ty });
        let mut cp: Vec<(u16, char)> = Vec::new();
        cp.push((g.index, ' '));
        proof {
            assert(cp@ =~= seq![(g.index, ' ')]);
        }
        ops.push(Op::WriteCodepoints { font: id.clone(), size: t.font_size, cp });
        proof {
            lemma_glyph_ops_take(t.glyphs@, id@, t.font_size, rect, ph, gi as int);
            let g3 = seq![
                OpS::SetTextCursor { x: 0, y: 0 },
                OpS::SetTextMatrix {
                    translate_x: (rect.x + g.x) as i64,
                    translate_y: (ph - rect.y - g.y) as i64,
                },
                OpS::WriteCodepoints { font: id@, size: t.font_size, cp: seq![(g.index, ' ')] },
            ];
            assert(ops_view(ops@) =~= (text_head + gops.take(3 * gi as int)) + g3);
            assert(g3 =~= glyph_ops_from(t.glyphs@, id@, t.font_size, rect, ph, gi as int).take(3));
            assert(ops_view(ops@) =~= text_head + gops.take(3 * (gi as int + 1)));
        }
        gi = gi + 1;
    }
    ops.push(Op::EndTextSection);
    proof {
        assert(gops.take(3 * t.glyphs@.len() as int) =~= gops);
        assert(ops_view(ops@) =~= text_head + gops + seq![OpS::EndTextSection]);
        assert(ops_view(ops@) =~= base + text_ops(*t, id@, rect, ph));
    }
}

// ------------------------------------------------------------ tree walk

/// The font-resolution state a walk threads through the tree: the
/// registered keys of the document's font table and the decode log.
pub struct WalkFonts {
    pub reg: Seq<u64>,
    pub log: Seq<u64>,
}

/// The instructions and final font state of walking one subtree: nothing
/// at all for a hidden root (its whole subtree is excluded), else the
/// node's own instructions followed by every child's subtree in
/// declaration order.
pub open spec fn walk_node_s(node: RenderNode, ph: i64, st: WalkFonts, avail: Seq<u64>) -> (
    Seq<OpS>,
    WalkFonts,
)
    decreases node, 1int,
{
    if is_display_none_s(node.style) {
        (Seq::empty(), st)
    } else {
        let own = node_own_ops(node, ph, st.reg, avail);
        let st1 = WalkFonts {
            reg: node_reg_after(node, st.reg, avail),
            log: node_log_after(node, st.log, st.reg),
        };
        let rest = walk_children_s(node.children@, ph, st1, avail);
        (own + rest.0, rest.1)
    }
}

/// The instructions and final font state of walking a sibling list in
/// order: each sibling's whole subtree before the next sibling's.
pub open spec fn walk_children_s(cs: Seq<RenderNode>, ph: i64, st: WalkFonts, avail: Seq<u64>) -> (
    Seq<OpS>,
    WalkFonts,
)
    decreases cs, 0int,
{
    if cs.len() == 0 {
        (Seq::empty(), st)
    } else {
        let head = walk_node_s(cs[0], ph, st, avail);
        let rest = walk_children_s(cs.drop_first(), ph, head.1, avail);
        (head.0 + rest.0, rest.1)
    }
}

/// Walking one more sibling appends that sibling's subtree instructions,
/// and advances the font state through it.
pub proof fn lemma_walk_children_snoc(
    cs: Seq<RenderNode>,
    x: RenderNode,
    ph: i64,
    st: WalkFonts,
    avail: Seq<u64>,
)
    ensures
        walk_children_s(cs.push(x), ph, st, avail).0 == walk_children_s(cs, ph, st, avail).0
            + walk_node_s(x, ph, walk_children_s(cs, ph, st, avail).1, avail).0,
        walk_children_s(cs.push(x), ph, st, avail).1 == walk_node_s(
            x,
            ph,
            walk_children_s(cs, ph, st, avail).1,
            avail,
        ).1,
    decreases cs.len(),
{
    if cs.len() == 0 {
        assert(cs.push(x)[0] == x);
        assert(cs.push(x).drop_first() =~= Seq::<RenderNode>::empty());
        assert(walk_children_s(Seq::<RenderNode>::empty(), ph, walk_node_s(x, ph, st, avail).1, avail).0
            =~= Seq::<OpS>::empty());
        assert(walk_children_s(cs.push(x), ph, st, avail).0 =~= walk_children_s(cs, ph, st, avail).0
            + walk_node_s(x, ph, walk_children_s(cs, ph, st, avail).1, avail).0);
    } else {
        assert(cs.push(x)[0] == cs[0]);
        assert(cs.push(x).drop_first() =~= cs.drop_first().push(x));
        let st1 = walk_node_s(cs[0], ph, st, avail).1;
        lemma_walk_children_snoc(cs.drop_first(), x, ph, st1, avail);
        assert(walk_children_s(cs.push(x), ph, st, avail).0 =~= walk_children_s(cs, ph, st, avail).0
            + walk_node_s(x, ph, walk_children_s(cs, ph, st, avail).1, avail).0);
    }
}

/// Walk one subtree: emit the root's instructions (nothing when it is
/// hidden, skipping the whole subtree), then every child's subtree in
/// declaration order.
#[verifier::loop_isolation(false)]
pub fn push_rectangles_into_displaylist(
    ops: &mut Vec<Op>,
    node: &RenderNode,
    page_height: i64,
    res: &mut FontResources,
    source: &FontSource,
) -> (r: Option<()>)
    requires
        node_wf(*node),
        coord_ok(page_height),
    ensures
        ({
            let w = walk_node_s(
                *node,
                page_height,
                WalkFonts { reg: old(res).registered@, log: old(res).decode_log@ },
                source.available@,
            );
            &&& ops_view(final(ops)@) == ops_view(old(ops)@) + w.0
            &&& final(res).registered@ == w.1.reg
            &&& final(res).decode_log@ == w.1.log
        }),
        r is Some <==> !is_display_none_s(node.style),
    decreases *node,
{
    let ghost st0 = WalkFonts { reg: res.registered@, log: res.decode_log@ };
    let ghost avail = source.available@;
    let visible = displaylist_handle_rect(ops, node, page_height, res, source);
    match visible {
        Option::None => {
            return Option::None;
        },
        Option::Some(_) => {},
    }
    let ghost st1 = WalkFonts { reg: res.registered@, log: res.decode_log@ };
    let ghost base = ops_view(old(ops)@) + node_own_ops(*node, page_height, st0.reg, avail);
    let mut i: usize = 0;
    while i < node.children.len()
        invariant
            i <= node.children@.len(),
            ({
                let pre = walk_children_s(node.children@.take(i as int), page_height, st1, avail);
                &&& ops_view(ops@) == base + pre.0
                &&& res.registered@ == pre.1.reg
                &&& res.decode_log@ == pre.1.log
            }),
        decreases node.children@.len() - i,
    {
        proof {
            assert(node_wf(node.children@[i as int]));
        }
        let ghost pre = walk_children_s(node.children@.take(i as int), page_height, st1, avail);
        let _ = push_rectangles_into_displaylist(
            ops,
            &node.children[i],
            page_height,
            res,
            source,
        );
        proof {
            lemma_walk_children_snoc(
                node.children@.take(i as int),
                node.children@[i as int],
                page_height,
                st1,
                avail,
            );
            assert(node.children@.take(i as int).push(node.children@[i as int]) =~= node.children@.take(
                i as int + 1,
            ));
        }
        i = i + 1;
    }
    proof {
        assert(node.children@.take(node.children@.len() as int) =~= node.children@);
    }
    Option::Some(())
}

/// Translate one positioned, styled tree into the flat instruction stream
/// of one page: a depth-first, parent-before-children walk whose output is
/// a pure function of the tree, the page height and the font tables, so
/// that rendering the same input twice yields the identical stream.
pub fn layout_result_to_ops(
    ops: &mut Vec<Op>,
    layout_root: &RenderNode,
    page_height: i64,
    res: &mut FontResources,
    source: &FontSource,
)
    requires
        node_wf(*layout_root),
        coord_ok(page_height),
    ensures
        ({
            let w = walk_node_s(
                *layout_root,
                page_height,
                WalkFonts { reg: old(res).registered@, log: old(res).decode_log@ },
                source.available@,
            );
            &&& ops_view(final(ops)@) == ops_view(old(ops)@) + w.0
            &&& final(res).registered@ == w.1.reg
            &&& final(res).decode_log@ == w.1.log
        }),
{
    let _ = push_rectangles_into_displaylist(ops, layout_root, page_height, res, source);
}

/// The glyph instructions of a run grow by exactly three per glyph.
pub proof fn lemma_glyph_ops_len(
    glyphs: Seq<GlyphInstance>,
    font: Seq<char>,
    size: i64,
    rect: LayoutRect,
    ph: i64,
    i: int,
)
    requires
        0 <= i <= glyphs.len(),
    ensures
        glyph_ops_from(glyphs, font, size, rect, ph, i).len() == 3 * (glyphs.len() - i),
    decreases glyphs.len() - i,
{
    if i < glyphs.len() {
        lemma_glyph_ops_len(glyphs, font, size, rect, ph, i + 1);
    }
}

/// Taking three more instructions of the run appends glyph `i`'s three.
pub proof fn lemma_glyph_ops_take(
    glyphs: Seq<GlyphInstance>,
    font: Seq<char>,
    size: i64,
    rect: LayoutRect,
    ph: i64,
    i: int,
)
    requires
        0 <= i < glyphs.len(),
    ensures
        glyph_ops_from(glyphs, font, size, rect, ph, 0).take(3 * (i + 1)) == glyph_ops_from(
            glyphs,
            font,
            size,
            rect,
            ph,
            0,
        ).take(3 * i) + glyph_ops_from(glyphs, font, size, rect, ph, i).take(3),
        glyph_ops_from(glyphs, font, size, rect, ph, i).take(3) == seq![
            OpS::SetTextCursor { x: 0, y: 0 },
            OpS::SetTextMatrix {
                translate_x: (rect.x + glyphs[i].x) as i64,
                translate_y: (ph - rect.y - glyphs[i].y) as i64,
            },
            OpS::WriteCodepoints { font: font, size: size, cp: seq![(glyphs[i].index, ' ')] },
        ],
        glyph_ops_from(glyphs, font, size, rect, ph, 0).len() == 3 * glyphs.len(),
{
    lemma_glyph_ops_len(glyphs, font, size, rect, ph, 0);
    lemma_glyph_ops_len(glyphs, font, size, rect, ph, i);
    lemma_glyph_ops_len(glyphs, font, size, rect, ph, i + 1);
    lemma_glyph_ops_prefix(glyphs, font, size, rect, ph, i);
    let all = glyph_ops_from(glyphs, font, size, rect, ph, 0);
    let at_i = glyph_ops_from(glyphs, font, size, rect, ph, i);
    assert(at_i == seq![
        OpS::SetTextCursor { x: 0, y: 0 },
        OpS::SetTextMatrix {
            translate_x: (rect.x + glyphs[i].x) as i64,
            translate_y: (ph - rect.y - glyphs[i].y) as i64,
        },
        OpS::WriteCodepoints { font: font, size: size, cp: seq![(glyphs[i].index, ' ')] },
    ] + glyph_ops_from(glyphs, font, size, rect, ph, i + 1));
    assert(at_i.take(3) =~= seq![
        OpS::SetTextCursor { x: 0, y: 0 },
        OpS::SetTextMatrix {
            translate_x: (rect.x + glyphs[i].x) as i64,
            translate_y: (ph - rect.y - glyphs[i].y) as i64,
        },
        OpS::WriteCodepoints { font: font, size: size, cp: seq![(glyphs[i].index, ' ')] },
    ]);
    assert(all.take(3 * (i + 1)) =~= all.take(3 * i) + at_i.take(3));
}

/// The whole run equals the first `i` glyphs' instructions followed by the
/// instructions from `i` on.
pub proof fn lemma_glyph_ops_prefix(
    glyphs: Seq<GlyphInstance>,
    font: Seq<char>,
    size: i64,
    rect: LayoutRect,
    ph: i64,
    i: int,
)
    requires
        0 <= i <= glyphs.len(),
    ensures
        glyph_ops_from(glyphs, font, size, rect, ph, 0) == glyph_ops_from(
            glyphs,
            font,
            size,
            rect,
            ph,
            0,
        ).take(3 * i) + glyph_ops_from(glyphs, font, size, rect, ph, i),
    decreases i,
{
    lemma_glyph_ops_len(glyphs, font, size, rect, ph, 0);
    lemma_glyph_ops_len(glyphs, font, size, rect, ph, i);
    if i == 0 {
        assert(glyph_ops_from(glyphs, font, size, rect, ph, 0) =~= glyph_ops_from(
            glyphs,
            font,
            size,
            rect,
            ph,
            0,
        ).take(0) + glyph_ops_from(glyphs, font, size, rect, ph, 0));
    } else {
        lemma_glyph_ops_prefix(glyphs, font, size, rect, ph, i - 1);
        lemma_glyph_ops_len(glyphs, font, size, rect, ph, i - 1);
        assert(glyph_ops_from(glyphs, font, size, rect, ph, i - 1) == seq![
            OpS::SetTextCursor { x: 0, y: 0 },
            OpS::SetTextMatrix {
                translate_x: (rect.x + glyphs[i - 1].x) as i64,
                translate_y: (ph - rect.y - glyphs[i - 1].y) as i64,
            },
            OpS::WriteCodepoints {
                font: font,
                size: size,
                cp: seq![(glyphs[i - 1].index, ' ')],
            },
        ] + glyph_ops_from(glyphs, font, size, rect, ph, i));
        assert(glyph_ops_from(glyphs, font, size, rect, ph, 0) =~= glyph_ops_from(
            glyphs,
            font,
            size,
            rect,
            ph,
            0,
        ).take(3 * i) + glyph_ops_from(glyphs, font, size, rect, ph, i));
    }
}

} // verus!
