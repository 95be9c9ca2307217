use pageops::builtin::{get_fcpat, get_system_fonts, BuiltinFont};
use pageops::emit::{
    get_background_content, get_border_radius, get_opt_border, is_display_none,
    LayoutRectContentBackground,
};
use pageops::geom::{LayoutRect, Rgb};
use pageops::resources::{ImageTypeInfo, XmlRenderOptions};
use pageops::tree::{
    BackgroundContent, BackgroundPosition, BackgroundRepeat, BackgroundSize, BorderSides,
    CssValue, LayoutDisplay, NodeContent, NodeStyle, RenderNode,
};

fn plain_style() -> NodeStyle {
    NodeStyle {
        display: None,
        background: None,
        background_sizes: None,
        background_positions: None,
        background_repeats: None,
        has_border: false,
        border_widths: BorderSides { top: None, right: None, bottom: None, left: None },
        border_colors: BorderSides { top: None, right: None, bottom: None, left: None },
        border_styles: BorderSides { top: None, right: None, bottom: None, left: None },
        radius_top_left: None,
        radius_top_right: None,
        radius_bottom_left: None,
        radius_bottom_right: None,
    }
}

fn container(style: NodeStyle) -> RenderNode {
    RenderNode {
        rect: LayoutRect { x: 0, y: 0, width: 10, height: 10 },
        style,
        content: NodeContent::Container,
        children: Vec::new(),
    }
}

#[test]
fn unset_display_is_visible() {
    assert!(!is_display_none(&container(plain_style())));
    let mut st = plain_style();
    st.display = Some(CssValue::Exact(LayoutDisplay::Block));
    assert!(!is_display_none(&container(st)));
    let mut st = plain_style();
    st.display = Some(CssValue::Auto);
    assert!(!is_display_none(&container(st)));
}

#[test]
fn background_modifiers_pair_by_index_or_first() {
    let mut st = plain_style();
    st.background = Some(CssValue::Exact(vec![
        BackgroundContent::Color(Rgb { r: 1, g: 2, b: 3 }),
        BackgroundContent::Image,
        BackgroundContent::LinearGradient,
    ]));
    st.background_sizes = Some(CssValue::Exact(vec![
        BackgroundSize::Contain,
        BackgroundSize::Cover,
    ]));
    st.background_repeats = Some(CssValue::Exact(vec![BackgroundRepeat::NoRepeat]));
    st.background_positions = Some(CssValue::Exact(Vec::<BackgroundPosition>::new()));
    let layers = get_background_content(&container(st));
    // the image-backed declaration is dropped, the other two kept in order
    assert_eq!(layers.len(), 2);
    assert_eq!(
        layers[0],
        LayoutRectContentBackground {
            content: BackgroundContent::Color(Rgb { r: 1, g: 2, b: 3 }),
            size: Some(BackgroundSize::Contain),
            offset: None,
            repeat: Some(BackgroundRepeat::NoRepeat),
        }
    );
    // index 2 overruns the size list, so it falls back to the first entry
    assert_eq!(
        layers[1],
        LayoutRectContentBackground {
            content: BackgroundContent::LinearGradient,
            size: Some(BackgroundSize::Contain),
            offset: None,
            repeat: Some(BackgroundRepeat::NoRepeat),
        }
    );
}

#[test]
fn non_exact_background_extracts_nothing() {
    let mut st = plain_style();
    st.background = Some(CssValue::Inherit);
    assert!(get_background_content(&container(st)).is_empty());
    assert!(get_background_content(&container(plain_style())).is_empty());
}

#[test]
fn border_layer_exists_only_when_declared() {
    assert_eq!(get_opt_border(&container(plain_style())), None);
    let mut st = plain_style();
    st.has_border = true;
    st.border_widths = BorderSides {
        top: Some(CssValue::Exact(2)),
        right: Some(CssValue::Exact(1)),
        bottom: None,
        left: None,
    };
    let border = get_opt_border(&container(st)).unwrap();
    assert_eq!(border.widths.top, Some(CssValue::Exact(2)));
    assert_eq!(border.widths.right, Some(CssValue::Exact(1)));
}

#[test]
fn border_radius_reads_all_four_corners() {
    let mut st = plain_style();
    st.radius_top_left = Some(CssValue::Exact(4));
    st.radius_bottom_right = Some(CssValue::Exact(8));
    let r = get_border_radius(&container(st));
    assert_eq!(r.top_left, Some(CssValue::Exact(4)));
    assert_eq!(r.top_right, None);
    assert_eq!(r.bottom_left, None);
    assert_eq!(r.bottom_right, Some(CssValue::Exact(8)));
}

#[test]
fn default_options_use_the_standard_page() {
    let config = XmlRenderOptions::default();
    assert_eq!(config.page_width, 210);
    assert_eq!(config.page_height, 297);
    assert!(config.images.is_empty());
    assert!(config.fonts.is_empty());
}

#[test]
fn default_image_type_is_raster() {
    assert_eq!(ImageTypeInfo::default(), ImageTypeInfo::Image);
}

#[test]
fn system_fonts_map_generic_families_to_builtins() {
    let fonts = get_system_fonts();
    let pairs: Vec<(&str, BuiltinFont)> =
        fonts.iter().map(|(name, font)| (name.as_str(), *font)).collect();
    assert_eq!(
        pairs,
        vec![
            ("serif", BuiltinFont::TimesRoman),
            ("sans-serif", BuiltinFont::Helvetica),
            ("cursive", BuiltinFont::TimesItalic),
            ("fantasy", BuiltinFont::TimesItalic),
            ("monospace", BuiltinFont::Courier),
        ]
    );
}

#[test]
fn builtin_patterns_use_the_standard_names() {
    let (pat, font) = get_fcpat(BuiltinFont::TimesBoldItalic);
    assert_eq!(pat.name, "Times-BoldItalic");
    assert_eq!(pat.font_index, 0);
    assert_eq!(font, BuiltinFont::TimesBoldItalic);
    assert_eq!(BuiltinFont::ZapfDingbats.get_id(), "ZapfDingbats");
}
