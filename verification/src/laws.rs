//! The translator's global guarantees, stated and proved over the walk's
//! specification functions.

use crate::emit::{
    background_layers_s, border_of, border_ops, fill_ops_from, font_found, image_ops,
    image_info_of, is_display_none_s, node_log_after, node_own_ops, node_reg_after,
    walk_children_s, walk_node_s, WalkFonts,
};
use crate::geom::{page_rect_of, LayoutRect};
use crate::ops::OpS;
use crate::resources::{registered_unique, ImageInfoS};
use crate::tree::{NodeContent, RenderNode};
use vstd::prelude::*;

verus! {

/// A hidden node emits nothing and touches nothing: no instruction of it
/// or of any of its descendants reaches the stream, and the font tables
/// stay as they were.
pub proof fn lemma_hidden_subtree_excluded(
    node: RenderNode,
    ph: i64,
    st: WalkFonts,
    avail: Seq<u64>,
)
    requires
        is_display_none_s(node.style),
    ensures
        walk_node_s(node, ph, st, avail).0 == Seq::<OpS>::empty(),
        walk_node_s(node, ph, st, avail).1 == st,
{
}

/// An image layer with a zero-area target box, or a zero intrinsic
/// dimension, places nothing.
pub proof fn lemma_zero_area_suppression(info: Option<ImageInfoS>, rect: LayoutRect, ph: i64)
    requires
        rect.width == 0 || rect.height == 0 || (info matches Option::Some(i) && (i.width == 0
            || i.height == 0)),
    ensures
        image_ops(info, rect, ph) == Seq::<OpS>::empty(),
{
}

/// Painter's order among siblings: the walk of a sibling list is exactly
/// the instructions of the first `j` siblings' subtrees, then the whole
/// subtree of sibling `j`, then the remaining siblings' subtrees — so for
/// siblings A before B, every instruction of A's subtree precedes every
/// instruction of B's subtree in the stream.
pub proof fn lemma_painter_order(
    cs: Seq<RenderNode>,
    ph: i64,
    st: WalkFonts,
    avail: Seq<u64>,
    j: int,
)
    requires
        0 <= j < cs.len(),
    ensures
        ({
            let pre = walk_children_s(cs.take(j), ph, st, avail);
            let block = walk_node_s(cs[j], ph, pre.1, avail);
            let post = walk_children_s(cs.skip(j + 1), ph, block.1, avail);
            walk_children_s(cs, ph, st, avail).0 == pre.0 + block.0 + post.0
        }),
    decreases j,
{
    if j == 0 {
        assert(cs.take(0) =~= Seq::<RenderNode>::empty());
        assert(walk_children_s(cs.take(0), ph, st, avail).0 =~= Seq::<OpS>::empty());
        assert(walk_children_s(cs.take(0), ph, st, avail).1 == st);
        assert(cs.skip(1) =~= cs.drop_first());
        assert(cs[0] == cs.take(1int)[0]);
        let block = walk_node_s(cs[0], ph, st, avail);
        let post = walk_children_s(cs.drop_first(), ph, block.1, avail);
        assert(walk_children_s(cs, ph, st, avail).0 == block.0 + post.0);
        assert(walk_children_s(cs.take(0), ph, st, avail).0 + block.0 + post.0 =~= block.0
            + post.0);
    } else {
        let head = walk_node_s(cs[0], ph, st, avail);
        lemma_painter_order(cs.drop_first(), ph, head.1, avail, j - 1);
        assert(cs.drop_first().take(j - 1) =~= cs.take(j).drop_first());
        assert(cs.take(j)[0] == cs[0]);
        assert(cs.drop_first()[j - 1] == cs[j]);
        assert(cs.drop_first().skip(j) =~= cs.skip(j + 1));
        let pre = walk_children_s(cs.take(j), ph, st, avail);
        let pre_tail = walk_children_s(cs.take(j).drop_first(), ph, head.1, avail);
        assert(pre.0 == head.0 + pre_tail.0);
        assert(pre.1 == pre_tail.1);
        let block = walk_node_s(cs[j], ph, pre.1, avail);
        let post = walk_children_s(cs.skip(j + 1), ph, block.1, avail);
        assert(walk_children_s(cs.drop_first(), ph, head.1, avail).0 == pre_tail.0 + block.0
            + post.0);
        assert(walk_children_s(cs, ph, st, avail).0 == head.0 + (pre_tail.0 + block.0 + post.0));
        assert(head.0 + (pre_tail.0 + block.0 + post.0) =~= (head.0 + pre_tail.0) + block.0
            + post.0);
    }
}

/// Only fill instructions appear among the background layers' output, and
/// every filled rectangle is the node's page-space rectangle.
proof fn lemma_fill_ops_kinds(
    layers: Seq<crate::emit::LayoutRectContentBackground>,
    rect: LayoutRect,
    ph: i64,
    i: int,
)
    ensures
        forall|k: int|
            0 <= k < fill_ops_from(layers, rect, ph, i).len() ==> (#[trigger] fill_ops_from(
                layers,
                rect,
                ph,
                i,
            )[k] matches OpS::SetFillColor { .. } || fill_ops_from(layers, rect, ph, i)[k]
                == (OpS::DrawPolygon { rect: page_rect_of(rect, ph) })),
    decreases layers.len() - i,
{
    if 0 <= i < layers.len() {
        lemma_fill_ops_kinds(layers, rect, ph, i + 1);
    }
}

/// Every glyph instruction is a cursor reset, a matrix translation to the
/// box origin plus a glyph advance (flipped vertically), or a glyph draw.
proof fn lemma_glyph_ops_shape(
    glyphs: Seq<crate::tree::GlyphInstance>,
    font: Seq<char>,
    size: i64,
    rect: LayoutRect,
    ph: i64,
    i: int,
)
    requires
        0 <= i <= glyphs.len(),
    ensures
        forall|k: int|
            0 <= k < crate::emit::glyph_ops_from(glyphs, font, size, rect, ph, i).len()
                ==> glyph_op_ok(
                #[trigger] crate::emit::glyph_ops_from(glyphs, font, size, rect, ph, i)[k],
                glyphs,
                rect,
                ph,
            ),
    decreases glyphs.len() - i,
{
    if i < glyphs.len() {
        lemma_glyph_ops_shape(glyphs, font, size, rect, ph, i + 1);
        let whole = crate::emit::glyph_ops_from(glyphs, font, size, rect, ph, i);
        assert forall|k: int| 0 <= k < whole.len() implies glyph_op_ok(
            #[trigger] whole[k],
            glyphs,
            rect,
            ph,
        ) by {
            if k == 1 {
                assert(whole[k] == (OpS::SetTextMatrix {
                    translate_x: (rect.x + glyphs[i].x) as i64,
                    translate_y: (ph - rect.y - glyphs[i].y) as i64,
                }));
                assert(glyph_matrix_ok(whole[k], glyphs, rect, ph)) by {
                    assert(0 <= i < glyphs.len() && whole[k] == (OpS::SetTextMatrix {
                        translate_x: (rect.x + glyphs[i].x) as i64,
                        translate_y: (ph - rect.y - glyphs[i].y) as i64,
                    }));
                }
            } else if k >= 3 {
                assert(whole[k] == crate::emit::glyph_ops_from(glyphs, font, size, rect, ph, i + 1)[
                    k - 3]);
            }
        }
    }
}

/// An instruction is the text-matrix translation of some glyph of the run.
pub open spec fn glyph_matrix_ok(
    op: OpS,
    glyphs: Seq<crate::tree::GlyphInstance>,
    rect: LayoutRect,
    ph: i64,
) -> bool {
    exists|j: int|
        0 <= j < glyphs.len() && op == (OpS::SetTextMatrix {
            translate_x: (rect.x + glyphs[j].x) as i64,
            translate_y: (ph - rect.y - glyphs[j].y) as i64,
        })
}

/// The shape of one glyph instruction.
pub open spec fn glyph_op_ok(
    op: OpS,
    glyphs: Seq<crate::tree::GlyphInstance>,
    rect: LayoutRect,
    ph: i64,
) -> bool {
    match op {
        OpS::SetTextCursor { .. } => true,
        OpS::WriteCodepoints { .. } => true,
        OpS::SetTextMatrix { .. } => glyph_matrix_ok(op, glyphs, rect, ph),
        _ => false,
    }
}

/// Where one node's instructions place content, the vertical coordinate is
/// flipped around the page height and the horizontal coordinate passes
/// through unchanged: filled and stroked rectangles use the node's
/// page-space rectangle, an image placement translates to `(x, H - y)`,
/// and every text matrix translates to the box origin plus a glyph advance
/// with the vertical flip applied.
pub open spec fn flip_ok(op: OpS, node: RenderNode, ph: i64) -> bool {
    match op {
        OpS::DrawPolygon { rect } => rect == page_rect_of(node.rect, ph),
        OpS::DrawLine { rect } => rect == page_rect_of(node.rect, ph),
        OpS::UseXObject { id, translate_x, translate_y, scale_x, scale_y } => translate_x
            == node.rect.x && translate_y == (ph - node.rect.y) as i64,
        OpS::SetTextMatrix { .. } => (match node.content {
            NodeContent::Text(t) => glyph_matrix_ok(op, t.glyphs@, node.rect, ph),
            _ => false,
        }),
        _ => true,
    }
}

/// Coordinate-flip correctness: every instruction a node emits for itself
/// satisfies [`flip_ok`].
pub proof fn lemma_coordinate_flip(node: RenderNode, ph: i64, reg: Seq<u64>, avail: Seq<u64>)
    ensures
        forall|k: int|
            0 <= k < node_own_ops(node, ph, reg, avail).len() ==> flip_ok(
                #[trigger] node_own_ops(node, ph, reg, avail)[k],
                node,
                ph,
            ),
{
    let bg = fill_ops_from(background_layers_s(node.style), node.rect, ph, 0);
    let bd = match border_of(node.style) {
        Option::Some(b) => border_ops(b, node.rect, ph),
        Option::None => Seq::<OpS>::empty(),
    };
    let boxed = if bg.len() + bd.len() > 0 {
        seq![OpS::SaveGraphicsState] + bg + bd + seq![OpS::RestoreGraphicsState]
    } else {
        Seq::<OpS>::empty()
    };
    let img = image_ops(image_info_of(node.content), node.rect, ph);
    let ops = node_own_ops(node, ph, reg, avail);
    lemma_fill_ops_kinds(background_layers_s(node.style), node.rect, ph, 0);
    assert forall|k: int| 0 <= k < ops.len() implies flip_ok(#[trigger] ops[k], node, ph) by {
        if k < boxed.len() {
            assert(ops[k] == boxed[k]);
            if 1 <= k < 1 + bg.len() {
                assert(boxed[k] == bg[k - 1]);
            } else if 1 + bg.len() <= k < 1 + bg.len() + bd.len() {
                assert(boxed[k] == bd[k - 1 - bg.len()]);
            }
        } else if k < boxed.len() + img.len() {
            assert(ops[k] == img[k - boxed.len()]);
        } else {
            let ti = k - boxed.len() - img.len();
            match node.content {
                NodeContent::Text(t) => {
                    if font_found(reg, avail, t.font_key) {
                        let font = crate::tag::font_name_chars(t.font_key);
                        let gops = crate::emit::glyph_ops_from(
                            t.glyphs@,
                            font,
                            t.font_size,
                            node.rect,
                            ph,
                            0,
                        );
                        lemma_glyph_ops_shape(t.glyphs@, font, t.font_size, node.rect, ph, 0);
                        let txt = crate::emit::text_ops(t, font, node.rect, ph);
                        assert(ops[k] == txt[ti]);
                        if 5 <= ti < 5 + gops.len() {
                            assert(txt[ti] == gops[ti - 5]);
                        }
                    }
                },
                _ => {},
            }
        }
    }
}

/// State bracketing: when a node has at least one fill or stroke layer,
/// its instruction block opens with exactly one save, carries exactly the
/// fill and stroke instructions, and closes with exactly one restore
/// before the node's image or text instructions; a node without such a
/// layer emits no save/restore bracket at all, so state cannot leak
/// between unrelated siblings.
pub proof fn lemma_state_bracketing(node: RenderNode, ph: i64, reg: Seq<u64>, avail: Seq<u64>)
    ensures
        ({
            let bg = fill_ops_from(background_layers_s(node.style), node.rect, ph, 0);
            let bd = match border_of(node.style) {
                Option::Some(b) => border_ops(b, node.rect, ph),
                Option::None => Seq::<OpS>::empty(),
            };
            let ops = node_own_ops(node, ph, reg, avail);
            &&& (bg.len() + bd.len() > 0 ==> {
                &&& ops[0] == OpS::SaveGraphicsState
                &&& ops.subrange(1, 1 + bg.len() as int + bd.len() as int) == bg + bd
                &&& ops[1 + bg.len() as int + bd.len() as int] == OpS::RestoreGraphicsState
                &&& forall|k: int|
                    2 + bg.len() + bd.len() <= k < ops.len() ==> (#[trigger] ops[k]
                        != OpS::SaveGraphicsState && ops[k] != OpS::RestoreGraphicsState)
            })
            &&& (bg.len() + bd.len() == 0 ==> forall|k: int|
                0 <= k < ops.len() ==> (#[trigger] ops[k] != OpS::SaveGraphicsState && ops[k]
                    != OpS::RestoreGraphicsState))
        }),
{
    let bg = fill_ops_from(background_layers_s(node.style), node.rect, ph, 0);
    let bd = match border_of(node.style) {
        Option::Some(b) => border_ops(b, node.rect, ph),
        Option::None => Seq::<OpS>::empty(),
    };
    let boxed = if bg.len() + bd.len() > 0 {
        seq![OpS::SaveGraphicsState] + bg + bd + seq![OpS::RestoreGraphicsState]
    } else {
        Seq::<OpS>::empty()
    };
    let img = image_ops(image_info_of(node.content), node.rect, ph);
    let ops = node_own_ops(node, ph, reg, avail);
    if bg.len() + bd.len() > 0 {
        assert(ops.subrange(1, 1 + bg.len() as int + bd.len() as int) =~= bg + bd);
    }
    assert forall|k: int| boxed.len() <= k < ops.len() implies (#[trigger] ops[k]
        != OpS::SaveGraphicsState && ops[k] != OpS::RestoreGraphicsState) by {
        if k < boxed.len() + img.len() {
            assert(ops[k] == img[k - boxed.len()]);
        } else {
            let ti = k - boxed.len() - img.len();
            match node.content {
                NodeContent::Text(t) => {
                    if font_found(reg, avail, t.font_key) {
                        let font = crate::tag::font_name_chars(t.font_key);
                        let gops = crate::emit::glyph_ops_from(
                            t.glyphs@,
                            font,
                            t.font_size,
                            node.rect,
                            ph,
                            0,
                        );
                        lemma_glyph_ops_shape(t.glyphs@, font, t.font_size, node.rect, ph, 0);
                        let txt = crate::emit::text_ops(t, font, node.rect, ph);
                        assert(ops[k] == txt[ti]);
                        if 5 <= ti < 5 + gops.len() {
                            assert(txt[ti] == gops[ti - 5]);
                        }
                    }
                },
                _ => {},
            }
        }
    }
}

/// How often `k` occurs in a log.
pub open spec fn count_in(s: Seq<u64>, k: u64) -> nat
    decreases s.len(),
{
    if s.len() == 0 {
        0
    } else {
        count_in(s.drop_last(), k) + if s.last() == k {
            1nat
        } else {
            0nat
        }
    }
}

/// The font-table invariant the walk preserves: no key is registered
/// twice, and a decodable key has been decoded exactly once if it is
/// registered and never otherwise.
pub open spec fn fonts_inv(st: WalkFonts, avail: Seq<u64>) -> bool {
    &&& registered_unique(st.reg)
    &&& forall|k: u64|
        avail.contains(k) ==> #[trigger] count_in(st.log, k) <= (if st.reg.contains(k) {
            1nat
        } else {
            0nat
        })
}

/// Appending one key to a log raises exactly that key's count by one.
proof fn lemma_count_push(s: Seq<u64>, x: u64, k: u64)
    ensures
        count_in(s.push(x), k) == count_in(s, k) + if x == k {
            1nat
        } else {
            0nat
        },
{
    assert(s.push(x).drop_last() =~= s);
    assert(s.push(x).last() == x);
}

/// One visible node preserves the font-table invariant.
proof fn lemma_node_fonts_inv(node: RenderNode, st: WalkFonts, avail: Seq<u64>)
    requires
        fonts_inv(st, avail),
    ensures
        fonts_inv(
            WalkFonts {
                reg: node_reg_after(node, st.reg, avail),
                log: node_log_after(node, st.log, st.reg),
            },
            avail,
        ),
{
    match node.content {
        NodeContent::Text(t) => {
            let key = t.font_key;
            let reg1 = node_reg_after(node, st.reg, avail);
            let log1 = node_log_after(node, st.log, st.reg);
            if st.reg.contains(key) {
            } else {
                lemma_count_push(st.log, key, key);
                assert forall|k: u64| avail.contains(k) implies #[trigger] count_in(log1, k) <= (
                if reg1.contains(k) {
                    1nat
                } else {
                    0nat
                }) by {
                    lemma_count_push(st.log, key, k);
                    if avail.contains(key) {
                        assert(reg1 == st.reg.push(key));
                        assert(reg1.contains(key)) by {
                            assert(reg1[reg1.len() - 1] == key);
                        }
                        if k != key {
                            assert(reg1.contains(k) == st.reg.contains(k)) by {
                                if st.reg.contains(k) {
                                    let w = choose|w: int|
                                        0 <= w < st.reg.len() && st.reg[w] == k;
                                    assert(reg1[w] == k);
                                } else if reg1.contains(k) {
                                    let w = choose|w: int| 0 <= w < reg1.len() && reg1[w] == k;
                                    assert(st.reg[w] == k);
                                }
                            }
                        }
                    } else {
                        if k == key {
                            assert(!st.reg.contains(k));
                            assert(!avail.contains(k));
                        }
                    }
                }
                if avail.contains(key) {
                    assert(registered_unique(st.reg.push(key))) by {
                        assert forall|a: int, b: int|
                            0 <= a < b < st.reg.push(key).len() implies st.reg.push(key)[a]
                            != st.reg.push(key)[b] by {
                            if b == st.reg.len() {
                                assert(st.reg.push(key)[a] == st.reg[a]);
                                if st.reg[a] == key {
                                    assert(st.reg.contains(key));
                                }
                            }
                        }
                    }
                }
            }
        },
        _ => {},
    }
}

/// A whole subtree walk preserves the font-table invariant.
proof fn lemma_walk_node_fonts(node: RenderNode, ph: i64, st: WalkFonts, avail: Seq<u64>)
    requires
        fonts_inv(st, avail),
    ensures
        fonts_inv(walk_node_s(node, ph, st, avail).1, avail),
    decreases node, 1int,
{
    if !is_display_none_s(node.style) {
        let st1 = WalkFonts {
            reg: node_reg_after(node, st.reg, avail),
            log: node_log_after(node, st.log, st.reg),
        };
        lemma_node_fonts_inv(node, st, avail);
        lemma_walk_children_fonts(node.children@, ph, st1, avail);
    }
}

/// A sibling-list walk preserves the font-table invariant.
proof fn lemma_walk_children_fonts(cs: Seq<RenderNode>, ph: i64, st: WalkFonts, avail: Seq<u64>)
    requires
        fonts_inv(st, avail),
    ensures
        fonts_inv(walk_children_s(cs, ph, st, avail).1, avail),
    decreases cs, 0int,
{
    if cs.len() > 0 {
        lemma_walk_node_fonts(cs[0], ph, st, avail);
        lemma_walk_children_fonts(cs.drop_first(), ph, walk_node_s(cs[0], ph, st, avail).1, avail);
    }
}

/// Resource deduplication: walking a tree from empty font tables registers
/// every family key at most once, and decodes a decodable key at most
/// once, however many text nodes share it.
pub proof fn lemma_font_dedup(node: RenderNode, ph: i64, avail: Seq<u64>)
    ensures
        ({
            let end = walk_node_s(
                node,
                ph,
                WalkFonts { reg: Seq::empty(), log: Seq::empty() },
                avail,
            ).1;
            &&& registered_unique(end.reg)
            &&& forall|k: u64| avail.contains(k) ==> #[trigger] count_in(end.log, k) <= 1
        }),
{
    let st0 = WalkFonts { reg: Seq::empty(), log: Seq::empty() };
    assert(fonts_inv(st0, avail)) by {
        assert forall|k: u64| avail.contains(k) implies #[trigger] count_in(st0.log, k) <= (
        if st0.reg.contains(k) {
            1nat
        } else {
            0nat
        }) by {
            assert(count_in(st0.log, k) == 0);
            assert(!st0.reg.contains(k));
        }
    }
    lemma_walk_node_fonts(node, ph, st0, avail);
}

} // verus!
