use pageops::emit::{get_image_node, get_text_node, is_display_none, layout_result_to_ops};
use pageops::geom::{LayoutRect, PageRect, Rgb, Scale};
use pageops::ingest::{make_image_info, DecodeOutcome};
use pageops::ops::Op;
use pageops::page::tree_to_pages;
use pageops::resources::{FontResources, FontSource, XmlRenderOptions};
use pageops::tag::{encode_image_info, font_resource_name};
use pageops::tree::{
    BorderSides, BackgroundContent, CssValue, GlyphInstance, LayoutDisplay, NodeContent,
    NodeStyle, RenderNode, TextContent,
};

fn plain_style() -> NodeStyle {
    NodeStyle {
        display: None,
        background: None,
        background_sizes: None,
        background_positions: None,
        background_repeats: None,
        has_border: false,
        border_widths: BorderSides { top: None, right: None, bottom: None, left: None },
        border_colors: BorderSides { top: None, right: None, bottom: None, left: None },
        border_styles: BorderSides { top: None, right: None, bottom: None, left: None },
        radius_top_left: None,
        radius_top_right: None,
        radius_bottom_left: None,
        radius_bottom_right: None,
    }
}

fn rect(x: i64, y: i64, width: i64, height: i64) -> LayoutRect {
    LayoutRect { x, y, width, height }
}

fn node(r: LayoutRect, style: NodeStyle, content: NodeContent, children: Vec<RenderNode>) -> RenderNode {
    RenderNode { rect: r, style, content, children }
}

fn render(tree: &RenderNode, page_height: i64, source: &FontSource) -> (Vec<Op>, FontResources) {
    let mut ops = Vec::new();
    let mut res = FontResources::new();
    layout_result_to_ops(&mut ops, tree, page_height, &mut res, source);
    (ops, res)
}

fn no_fonts() -> FontSource {
    FontSource { available: Vec::new() }
}

fn red_box_style() -> NodeStyle {
    let mut st = plain_style();
    st.background = Some(CssValue::Exact(vec![BackgroundContent::Color(Rgb {
        r: 255,
        g: 0,
        b: 0,
    })]));
    st
}

#[test]
fn hidden_node_emits_nothing() {
    let mut st = red_box_style();
    st.display = Some(CssValue::Exact(LayoutDisplay::NoDisplay));
    let child = node(rect(0, 0, 10, 10), red_box_style(), NodeContent::Container, Vec::new());
    let tree = node(rect(1, 2, 3, 4), st, NodeContent::Container, vec![child]);
    assert!(is_display_none(&tree));
    let (ops, _) = render(&tree, 297, &no_fonts());
    assert!(ops.is_empty());
}

#[test]
fn display_none_keyword_also_hides() {
    let mut st = red_box_style();
    st.display = Some(CssValue::NoneValue);
    let tree = node(rect(0, 0, 5, 5), st, NodeContent::Container, Vec::new());
    let (ops, _) = render(&tree, 100, &no_fonts());
    assert!(ops.is_empty());
}

#[test]
fn colored_box_flips_vertical_coordinate() {
    let tree = node(rect(10, 10, 50, 20), red_box_style(), NodeContent::Container, Vec::new());
    let (ops, _) = render(&tree, 297, &no_fonts());
    assert_eq!(
        ops,
        vec![
            Op::SaveGraphicsState,
            Op::SetFillColor { color: Rgb { r: 255, g: 0, b: 0 } },
            Op::DrawPolygon { rect: PageRect { x: 10, y: 287, width: 50, height: 20 } },
            Op::RestoreGraphicsState,
        ]
    );
}

#[test]
fn siblings_emit_in_declaration_order() {
    let mut st_b = plain_style();
    st_b.background = Some(CssValue::Exact(vec![BackgroundContent::Color(Rgb {
        r: 0,
        g: 0,
        b: 255,
    })]));
    let a = node(rect(0, 0, 10, 10), red_box_style(), NodeContent::Container, Vec::new());
    let b = node(rect(0, 20, 10, 10), st_b, NodeContent::Container, Vec::new());
    let tree = node(rect(0, 0, 100, 100), plain_style(), NodeContent::Container, vec![a, b]);
    let (ops, _) = render(&tree, 100, &no_fonts());
    let red_at = ops
        .iter()
        .position(|op| op == &Op::SetFillColor { color: Rgb { r: 255, g: 0, b: 0 } })
        .unwrap();
    let blue_at = ops
        .iter()
        .position(|op| op == &Op::SetFillColor { color: Rgb { r: 0, g: 0, b: 255 } })
        .unwrap();
    assert!(red_at < blue_at);
    // Each sibling's block is bracketed and complete before the next begins.
    assert_eq!(ops[red_at + 2], Op::RestoreGraphicsState);
    assert_eq!(ops[blue_at - 1], Op::SaveGraphicsState);
}

#[test]
fn fill_and_stroke_share_one_bracket() {
    let mut st = red_box_style();
    st.has_border = true;
    st.border_widths = BorderSides { top: Some(CssValue::Exact(3)), right: None, bottom: None, left: None };
    st.border_colors = BorderSides {
        top: Some(CssValue::Exact(Rgb { r: 0, g: 128, b: 0 })),
        right: None,
        bottom: None,
        left: None,
    };
    let tree = node(rect(1, 2, 30, 40), st, NodeContent::Container, Vec::new());
    let (ops, _) = render(&tree, 200, &no_fonts());
    assert_eq!(
        ops,
        vec![
            Op::SaveGraphicsState,
            Op::SetFillColor { color: Rgb { r: 255, g: 0, b: 0 } },
            Op::DrawPolygon { rect: PageRect { x: 1, y: 198, width: 30, height: 40 } },
            Op::SetOutlineThickness { thickness: 3 },
            Op::SetOutlineColor { color: Rgb { r: 0, g: 128, b: 0 } },
            Op::DrawLine { rect: PageRect { x: 1, y: 198, width: 30, height: 40 } },
            Op::RestoreGraphicsState,
        ]
    );
}

#[test]
fn gradient_only_background_emits_no_bracket() {
    let mut st = plain_style();
    st.background = Some(CssValue::Exact(vec![BackgroundContent::LinearGradient]));
    let tree = node(rect(0, 0, 10, 10), st, NodeContent::Container, Vec::new());
    let (ops, _) = render(&tree, 50, &no_fonts());
    assert!(ops.is_empty());
}

fn tagged_image_node(r: LayoutRect, width: usize, height: usize) -> RenderNode {
    let info = make_image_info(&"logo".to_string(), "X1".to_string(), &DecodeOutcome::Raster {
        width,
        height,
    })
    .unwrap();
    let tag = encode_image_info(&info);
    node(r, plain_style(), NodeContent::Image { tag: Some(tag) }, Vec::new())
}

#[test]
fn image_placement_translates_and_scales() {
    let tree = tagged_image_node(rect(5, 7, 100, 50), 10, 25);
    let (ops, _) = render(&tree, 297, &no_fonts());
    assert_eq!(
        ops,
        vec![Op::UseXObject {
            id: "X1".to_string(),
            translate_x: 5,
            translate_y: 290,
            scale_x: Scale { num: 100, den: 10 },
            scale_y: Scale { num: 50, den: 25 },
        }]
    );
}

#[test]
fn zero_width_box_suppresses_image() {
    let tree = tagged_image_node(rect(5, 7, 0, 50), 10, 25);
    let (ops, _) = render(&tree, 297, &no_fonts());
    assert!(ops.is_empty());
}

#[test]
fn zero_intrinsic_height_suppresses_image() {
    let tree = tagged_image_node(rect(5, 7, 100, 50), 10, 0);
    let (ops, _) = render(&tree, 297, &no_fonts());
    assert!(ops.is_empty());
}

#[test]
fn undecodable_image_tag_renders_nothing_but_succeeds() {
    let tree = node(
        rect(0, 0, 10, 10),
        plain_style(),
        NodeContent::Image { tag: Some(b"not a descriptor".to_vec()) },
        Vec::new(),
    );
    assert_eq!(get_image_node(&tree), None);
    let (ops, _) = render(&tree, 297, &no_fonts());
    assert!(ops.is_empty());
}

fn text_node_with(key: u64, glyphs: Vec<GlyphInstance>) -> RenderNode {
    node(
        rect(10, 20, 100, 12),
        plain_style(),
        NodeContent::Text(TextContent { glyphs, font_key: key, font_size: 12, color: None }),
        Vec::new(),
    )
}

#[test]
fn text_paragraph_emits_one_section_with_one_glyph_draw_per_character() {
    let glyphs = vec![
        GlyphInstance { index: 41, x: 0, y: 0 },
        GlyphInstance { index: 76, x: 7, y: 0 },
    ];
    let tree = node(
        rect(0, 0, 210, 20),
        plain_style(),
        NodeContent::Text(TextContent { glyphs, font_key: 9, font_size: 12, color: None }),
        Vec::new(),
    );
    let source = FontSource { available: vec![9] };
    let config = XmlRenderOptions::default();
    assert_eq!((config.page_width, config.page_height), (210, 297));
    let mut res = FontResources::new();
    let pages = tree_to_pages(&tree, &config, &mut res, &source);
    assert_eq!(pages.len(), 1);
    let ops = &pages[0].ops;
    let starts = ops.iter().filter(|op| matches!(op, Op::StartTextSection)).count();
    let ends = ops.iter().filter(|op| matches!(op, Op::EndTextSection)).count();
    let draws = ops.iter().filter(|op| matches!(op, Op::WriteCodepoints { .. })).count();
    let fills = ops
        .iter()
        .filter(|op| matches!(op, Op::DrawPolygon { .. } | Op::DrawLine { .. }))
        .count();
    assert_eq!((starts, ends, draws, fills), (1, 1, 2, 0));
    assert_eq!(ops[0], Op::StartTextSection);
    assert_eq!(*ops.last().unwrap(), Op::EndTextSection);
    // The glyph draws sit between the section open and close.
    let first_draw = ops.iter().position(|op| matches!(op, Op::WriteCodepoints { .. })).unwrap();
    assert!(0 < first_draw && first_draw < ops.len() - 1);
}

#[test]
fn text_matrix_flips_and_offsets_by_glyph_advance() {
    let glyphs = vec![GlyphInstance { index: 1, x: 7, y: 3 }];
    let tree = text_node_with(5, glyphs);
    let source = FontSource { available: vec![5] };
    let (ops, _) = render(&tree, 297, &source);
    assert!(ops.contains(&Op::SetTextMatrix { translate_x: 17, translate_y: 274 }));
}

#[test]
fn shared_font_key_registers_and_decodes_once() {
    let a = text_node_with(7, vec![GlyphInstance { index: 1, x: 0, y: 0 }]);
    let b = text_node_with(7, vec![GlyphInstance { index: 2, x: 5, y: 0 }]);
    let tree = node(rect(0, 0, 100, 100), plain_style(), NodeContent::Container, vec![a, b]);
    let source = FontSource { available: vec![7] };
    let (ops, res) = render(&tree, 297, &source);
    assert_eq!(res.registered, vec![7]);
    assert_eq!(res.decode_log, vec![7]);
    let names: Vec<&String> = ops
        .iter()
        .filter_map(|op| match op {
            Op::WriteCodepoints { font, .. } => Some(font),
            _ => None,
        })
        .collect();
    assert_eq!(names.len(), 2);
    assert_eq!(names[0], names[1]);
    assert_eq!(*names[0], font_resource_name(7));
}

#[test]
fn undecodable_font_drops_text_and_retries_decode() {
    let a = text_node_with(7, vec![GlyphInstance { index: 1, x: 0, y: 0 }]);
    let b = text_node_with(7, vec![GlyphInstance { index: 2, x: 5, y: 0 }]);
    let tree = node(rect(0, 0, 100, 100), plain_style(), NodeContent::Container, vec![a, b]);
    let (ops, res) = render(&tree, 297, &no_fonts());
    assert!(ops.is_empty());
    assert!(res.registered.is_empty());
    assert_eq!(res.decode_log, vec![7, 7]);
}

#[test]
fn resolve_font_registers_lazily() {
    let tree = text_node_with(3, vec![GlyphInstance { index: 1, x: 0, y: 0 }]);
    let mut res = FontResources::new();
    let source = FontSource { available: vec![3] };
    let got = get_text_node(&tree, &mut res, &source);
    assert!(got.is_some());
    let (_, name, color, word_index) = got.unwrap();
    assert_eq!(name, font_resource_name(3));
    assert_eq!(color, Rgb { r: 0, g: 0, b: 0 });
    assert_eq!(word_index, 0);
    assert_eq!(res.registered, vec![3]);
}

fn build_sample_tree() -> RenderNode {
    let a = node(rect(10, 10, 50, 20), red_box_style(), NodeContent::Container, Vec::new());
    let b = text_node_with(7, vec![GlyphInstance { index: 4, x: 2, y: 1 }]);
    let c = tagged_image_node(rect(5, 7, 100, 50), 10, 25);
    node(rect(0, 0, 210, 297), plain_style(), NodeContent::Container, vec![a, b, c])
}

#[test]
fn rendering_twice_is_byte_identical() {
    let source = FontSource { available: vec![7] };
    let (ops1, res1) = render(&build_sample_tree(), 297, &source);
    let (ops2, res2) = render(&build_sample_tree(), 297, &source);
    assert_eq!(ops1, ops2);
    assert_eq!(res1.registered, res2.registered);
    assert_eq!(res1.decode_log, res2.decode_log);
    assert!(!ops1.is_empty());
}
