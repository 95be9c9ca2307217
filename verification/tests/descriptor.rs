use pageops::ingest::{make_image_info, DecodeOutcome};
use pageops::resources::{ImageInfo, ImageTypeInfo};
use pageops::tag::{encode_image_info, font_resource_name, parse_image_info};

fn sample_info() -> ImageInfo {
    ImageInfo {
        original_id: "logo.png".to_string(),
        xobject_id: "X7".to_string(),
        image_type: ImageTypeInfo::Image,
        width: 640,
        height: 480,
    }
}

#[test]
fn encoding_is_the_expected_json() {
    let encoded = encode_image_info(&sample_info());
    assert_eq!(
        String::from_utf8(encoded).unwrap(),
        "{\"original_id\":\"logo.png\",\"xobject_id\":\"X7\",\"image_type\":\"Image\",\"width\":640,\"height\":480}"
    );
}

#[test]
fn encoding_parses_as_json_with_the_right_fields() {
    let encoded = encode_image_info(&sample_info());
    let value: serde_json::Value = serde_json::from_slice(&encoded).unwrap();
    assert_eq!(value["original_id"], "logo.png");
    assert_eq!(value["xobject_id"], "X7");
    assert_eq!(value["image_type"], "Image");
    assert_eq!(value["width"], 640);
    assert_eq!(value["height"], 480);
}

#[test]
fn vector_kind_encodes_as_svg() {
    let info = make_image_info(
        &"pic".to_string(),
        "V1".to_string(),
        &DecodeOutcome::Vector { width: 0, height: 0 },
    )
    .unwrap();
    assert_eq!(info.image_type, ImageTypeInfo::Svg);
    let value: serde_json::Value = serde_json::from_slice(&encode_image_info(&info)).unwrap();
    assert_eq!(value["image_type"], "Svg");
    assert_eq!(value["width"], 0);
}

#[test]
fn failed_decode_yields_no_descriptor() {
    assert_eq!(
        make_image_info(&"x".to_string(), "X1".to_string(), &DecodeOutcome::Failed),
        None
    );
}

#[test]
fn descriptor_round_trips() {
    let info = sample_info();
    let encoded = encode_image_info(&info);
    assert_eq!(parse_image_info(&encoded), Some(info));
}

#[test]
fn descriptor_round_trips_with_escapes_and_unicode() {
    let info = ImageInfo {
        original_id: "we\"ird\\name\n\u{e9}\u{4e16}".to_string(),
        xobject_id: "X\t1".to_string(),
        image_type: ImageTypeInfo::Svg,
        width: usize::MAX,
        height: 0,
    };
    let encoded = encode_image_info(&info);
    // serde_json agrees on the escaped string content.
    let value: serde_json::Value = serde_json::from_slice(&encoded).unwrap();
    assert_eq!(value["original_id"], "we\"ird\\name\n\u{e9}\u{4e16}");
    assert_eq!(parse_image_info(&encoded), Some(info));
}

#[test]
fn malformed_descriptors_parse_to_nothing() {
    assert_eq!(parse_image_info(b""), None);
    assert_eq!(parse_image_info(b"{}"), None);
    assert_eq!(parse_image_info(b"not a descriptor"), None);
    assert_eq!(
        parse_image_info(b"{\"original_id\":\"a\",\"xobject_id\":\"b\",\"image_type\":\"Gif\",\"width\":1,\"height\":1}"),
        None
    );
    // an unterminated string
    assert_eq!(parse_image_info(b"{\"original_id\":\"a"), None);
    // a number too large for the machine
    assert_eq!(
        parse_image_info(b"{\"original_id\":\"a\",\"xobject_id\":\"b\",\"image_type\":\"Image\",\"width\":99999999999999999999999,\"height\":1}"),
        None
    );
    // trailing bytes after the object
    let mut with_tail = encode_image_info(&sample_info());
    with_tail.push(b' ');
    assert_eq!(parse_image_info(&with_tail), None);
}

#[test]
fn font_resource_names_are_fixed_width_and_stable() {
    assert_eq!(
        font_resource_name(5),
        "azul_font_family_00000000000000000000000000000005"
    );
    assert_eq!(
        font_resource_name(u64::MAX),
        "azul_font_family_00000000000018446744073709551615"
    );
    assert_eq!(font_resource_name(42), font_resource_name(42));
    assert_ne!(font_resource_name(42), font_resource_name(43));
}
