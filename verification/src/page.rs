//! Page assembly: one ordered instruction stream per page.
//!
//! Each render pass is a one-shot, full-tree traversal producing one flat
//! instruction list; the external document container holds the resulting
//! pages. The whole pipeline is single-threaded and synchronous, so the
//! stream is a pure function of its inputs and rendering the same tree
//! twice yields byte-identical streams.

use crate::emit::{layout_result_to_ops, walk_node_s, WalkFonts};
use crate::geom::coord_ok;
use crate::ops::{ops_view, Op};
use crate::resources::{FontResources, FontSource, XmlRenderOptions};
use crate::tree::{node_wf, RenderNode};
use vstd::prelude::*;

verus! {

/// One page of the output document: its size and its ordered instruction
/// stream.
#[derive(Debug, Clone, PartialEq)]
pub struct PdfPage {
    pub width: i64,
    pub height: i64,
    pub ops: Vec<Op>,
}

impl PdfPage {
    /// Assemble one page.
    pub fn new(width: i64, height: i64, ops: Vec<Op>) -> (r: PdfPage)
        ensures
            r.width == width,
            r.height == height,
            r.ops == ops,
    {
        PdfPage { width, height, ops }
    }
}

/// Translate one solved layout tree into the document's pages: a single
/// page of the configured size whose instruction stream is the painter's
/// walk of the tree. The font table records which fonts the walk embedded;
/// the stream is fully determined by the tree, the configuration and the
/// decodable font keys.
pub fn tree_to_pages(
    tree: &RenderNode,
    config: &XmlRenderOptions,
    res: &mut FontResources,
    source: &FontSource,
) -> (r: Vec<PdfPage>)
    requires
        node_wf(*tree),
        coord_ok(config.page_height),
    ensures
        r@.len() == 1,
        r@[0].width == config.page_width,
        r@[0].height == config.page_height,
        ({
            let w = walk_node_s(
                *tree,
                config.page_height,
                WalkFonts { reg: old(res).registered@, log: old(res).decode_log@ },
                source.available@,
            );
            &&& ops_view(r@[0].ops@) == w.0
            &&& final(res).registered@ == w.1.reg
            &&& final(res).decode_log@ == w.1.log
        }),
{
    let mut ops: Vec<Op> = Vec::new();
    layout_result_to_ops(&mut ops, tree, config.page_height, res, source);
    proof {
        assert(ops_view(Seq::<Op>::empty()) =~= Seq::<crate::ops::OpS>::empty());
        assert(ops_view(Seq::<Op>::empty()) + walk_node_s(
            *tree,
            config.page_height,
            WalkFonts { reg: old(res).registered@, log: old(res).decode_log@ },
            source.available@,
        ).0 =~= walk_node_s(
            *tree,
            config.page_height,
            WalkFonts { reg: old(res).registered@, log: old(res).decode_log@ },
            source.available@,
        ).0);
    }
    let mut pages: Vec<PdfPage> = Vec::new();
    pages.push(PdfPage::new(config.page_width, config.page_height, ops));
    pages
}

} // verus!
