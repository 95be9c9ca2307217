use pageops::codec::u64_to_dec;
use pageops::ingest::{
    contains_sub, fixup_xml, make_image_info, replace_all, trim_bytes, DecodeOutcome,
};
use pageops::tag::encode_image_info;

#[test]
fn bare_markup_gets_body_and_html_wrappers() {
    let out = fixup_xml(b"hello", &Vec::new());
    assert_eq!(out, b"<html><body>hello</body></html>".to_vec());
}

#[test]
fn present_wrappers_are_kept_and_whitespace_trimmed() {
    let out = fixup_xml(b"  <html><body>x</body></html>\n", &Vec::new());
    assert_eq!(out, b"<html><body>x</body></html>".to_vec());
}

#[test]
fn body_only_markup_gains_the_html_wrapper() {
    let out = fixup_xml(b"<body>x</body>", &Vec::new());
    assert_eq!(out, b"<html><body>x</body></html>".to_vec());
}

#[test]
fn image_sources_are_rewritten_to_inline_descriptors() {
    let info = make_image_info(
        &"logo".to_string(),
        "X1".to_string(),
        &DecodeOutcome::Raster { width: 2, height: 3 },
    )
    .unwrap();
    let json = String::from_utf8(encode_image_info(&info)).unwrap();
    let markup = b"<body><img src='logo'/><img src=\"logo\"/><img src='other'/></body>".to_vec();
    let out = fixup_xml(&markup, &vec![info]);
    let expect = format!(
        "<html><body><img src='{j}'/><img src='{j}'/><img src='other'/></body></html>",
        j = json
    );
    assert_eq!(String::from_utf8(out).unwrap(), expect);
}

#[test]
fn replace_all_handles_repeats_and_absence() {
    assert_eq!(replace_all(b"aXbXc", b"X", b"--"), b"a--b--c".to_vec());
    assert_eq!(replace_all(b"aaaa", b"aa", b"b"), b"bb".to_vec());
    assert_eq!(replace_all(b"hello", b"zz", b"y"), b"hello".to_vec());
    assert_eq!(replace_all(b"hello", b"", b"y"), b"hello".to_vec());
}

#[test]
fn contains_sub_finds_patterns() {
    assert!(contains_sub(b"hello world", b"lo w"));
    assert!(!contains_sub(b"hello", b"world"));
    assert!(contains_sub(b"abc", b""));
    assert!(!contains_sub(b"ab", b"abc"));
}

#[test]
fn trim_strips_ascii_whitespace_only_at_the_edges() {
    assert_eq!(trim_bytes(b" \t\r\n a b \n"), b"a b".to_vec());
    assert_eq!(trim_bytes(b"   "), Vec::<u8>::new());
    assert_eq!(trim_bytes(b""), Vec::<u8>::new());
    assert_eq!(trim_bytes(b"x"), b"x".to_vec());
}

#[test]
fn decimal_rendering_matches_expected_numerals() {
    assert_eq!(u64_to_dec(0), b"0".to_vec());
    assert_eq!(u64_to_dec(7), b"7".to_vec());
    assert_eq!(u64_to_dec(1234567890), b"1234567890".to_vec());
    assert_eq!(u64_to_dec(u64::MAX), b"18446744073709551615".to_vec());
}
