//! The serialized form of a resource descriptor, and stable resource names.
//!
//! During asset ingestion every decoded image gets an [`crate::resources::ImageInfo`],
//! which is written into the markup as serialized text so that it can travel
//! through the external layout engine unchanged and be recovered at emission
//! time. The encoding is one flat object with the descriptor's five fields
//! in declaration order, strings quoted and escaped, numbers in decimal.
//! Fonts are named by a fixed-width decimal rendering of their family key,
//! so identical keys always produce the identical resource name.

use crate::codec::{
    append_bytes, append_escaped, ascii_chars_of, dec_rep, dec_val, escape_bytes,
    expect_at, expect_bytes, is_dec_digit, lemma_ascii_utf8, lemma_dec_rep_digits,
    lemma_dec_rep_len, lemma_dec_val_of_rep, lemma_expect_exact, lemma_parse_dec_exact,
    lemma_parse_escaped_exact, parse_jstring, parse_jstring_at, parse_usize, parse_usize_at,
    pow10, u64_to_dec,
};
use crate::resources::{ImageInfo, ImageInfoS, ImageTypeInfo};
use vstd::prelude::*;
use vstd::utf8::{decode_utf8, encode_utf8, valid_utf8};

verus! {

// ------------------------------------------------------------- literals

/// `{"original_id":"`, the opening of the serialized descriptor.
pub open spec fn lit_open() -> Seq<u8> {
    seq![
        0x7bu8, 0x22u8, 0x6fu8, 0x72u8, 0x69u8, 0x67u8, 0x69u8, 0x6eu8, 0x61u8, 0x6cu8, 0x5fu8, 0x69u8, 0x64u8, 0x22u8, 0x3au8,
        0x22u8,
    ]
}

/// `,"xobject_id":"`, between the first and second string field.
pub open spec fn lit_xobject() -> Seq<u8> {
    seq![0x2cu8, 0x22u8, 0x78u8, 0x6fu8, 0x62u8, 0x6au8, 0x65u8, 0x63u8, 0x74u8, 0x5fu8, 0x69u8, 0x64u8, 0x22u8, 0x3au8, 0x22u8]
}

/// `,"image_type":"`, before the kind tag.
pub open spec fn lit_type() -> Seq<u8> {
    seq![0x2cu8, 0x22u8, 0x69u8, 0x6du8, 0x61u8, 0x67u8, 0x65u8, 0x5fu8, 0x74u8, 0x79u8, 0x70u8, 0x65u8, 0x22u8, 0x3au8, 0x22u8]
}

/// `Image"`, the raster kind tag with its closing quote.
pub open spec fn lit_ty_image() -> Seq<u8> {
    seq![0x49u8, 0x6du8, 0x61u8, 0x67u8, 0x65u8, 0x22u8]
}

/// `Svg"`, the vector kind tag with its closing quote.
pub open spec fn lit_ty_svg() -> Seq<u8> {
    seq![0x53u8, 0x76u8, 0x67u8, 0x22u8]
}

/// `,"width":`, before the intrinsic width.
pub open spec fn lit_width() -> Seq<u8> {
    seq![0x2cu8, 0x22u8, 0x77u8, 0x69u8, 0x64u8, 0x74u8, 0x68u8, 0x22u8, 0x3au8]
}

/// `,"height":`, before the intrinsic height.
pub open spec fn lit_height() -> Seq<u8> {
    seq![0x2cu8, 0x22u8, 0x68u8, 0x65u8, 0x69u8, 0x67u8, 0x68u8, 0x74u8, 0x22u8, 0x3au8]
}

/// `}`, the end of the serialized descriptor.
pub open spec fn lit_close() -> Seq<u8> {
    seq![0x7du8]
}

/// The kind tag of one image type, closing quote included.
pub open spec fn ty_lit(t: ImageTypeInfo) -> Seq<u8> {
    match t {
        ImageTypeInfo::Image => lit_ty_image(),
        ImageTypeInfo::Svg => lit_ty_svg(),
    }
}

// --------------------------------------------------------------- encoding

/// The serialized descriptor: the five fields in declaration order, strings
/// escaped, numbers in decimal.
pub open spec fn encode_image_info_s(info: ImageInfoS) -> Seq<u8> {
    lit_open() + escape_bytes(encode_utf8(info.original_id)) + seq![0x22u8] + lit_xobject()
        + escape_bytes(encode_utf8(info.xobject_id)) + seq![0x22u8] + lit_type() + ty_lit(
        info.image_type,
    ) + lit_width() + dec_rep(info.width as nat) + lit_height() + dec_rep(info.height as nat)
        + lit_close()
}

/// Serialize a resource descriptor.
pub fn encode_image_info(info: &ImageInfo) -> (r: Vec<u8>)
    ensures
        r@ == encode_image_info_s(info@),
{
    let mut out: Vec<u8> = Vec::new();
    let l_open: [u8; 16] = [
        0x7bu8, 0x22u8, 0x6fu8, 0x72u8, 0x69u8, 0x67u8, 0x69u8, 0x6eu8, 0x61u8, 0x6cu8, 0x5fu8, 0x69u8, 0x64u8, 0x22u8, 0x3au8,
        0x22u8,
    ];
    let l_xobject: [u8; 15] = [
        0x2cu8, 0x22u8, 0x78u8, 0x6fu8, 0x62u8, 0x6au8, 0x65u8, 0x63u8, 0x74u8, 0x5fu8, 0x69u8, 0x64u8, 0x22u8, 0x3au8, 0x22u8,
    ];
    let l_type: [u8; 15] = [
        0x2cu8, 0x22u8, 0x69u8, 0x6du8, 0x61u8, 0x67u8, 0x65u8, 0x5fu8, 0x74u8, 0x79u8, 0x70u8, 0x65u8, 0x22u8, 0x3au8, 0x22u8,
    ];
    let l_width: [u8; 9] = [0x2cu8, 0x22u8, 0x77u8, 0x69u8, 0x64u8, 0x74u8, 0x68u8, 0x22u8, 0x3au8];
    let l_height: [u8; 10] = [0x2cu8, 0x22u8, 0x68u8, 0x65u8, 0x69u8, 0x67u8, 0x68u8, 0x74u8, 0x22u8, 0x3au8];
    proof {
        assert(l_open@ =~= lit_open());
        assert(l_xobject@ =~= lit_xobject());
        assert(l_type@ =~= lit_type());
        assert(l_width@ =~= lit_width());
        assert(l_height@ =~= lit_height());
    }
    append_bytes(&mut out, l_open.as_slice());
    append_escaped(&mut out, info.original_id.as_str().as_bytes());
    out.push(0x22u8);
    append_bytes(&mut out, l_xobject.as_slice());
    append_escaped(&mut out, info.xobject_id.as_str().as_bytes());
    out.push(0x22u8);
    append_bytes(&mut out, l_type.as_slice());
    match info.image_type {
        ImageTypeInfo::Image => {
            let l: [u8; 6] = [0x49u8, 0x6du8, 0x61u8, 0x67u8, 0x65u8, 0x22u8];
            proof {
                assert(l@ =~= lit_ty_image());
            }
            append_bytes(&mut out, l.as_slice());
        },
        ImageTypeInfo::Svg => {
            let l: [u8; 4] = [0x53u8, 0x76u8, 0x67u8, 0x22u8];
            proof {
                assert(l@ =~= lit_ty_svg());
            }
            append_bytes(&mut out, l.as_slice());
        },
    }
    append_bytes(&mut out, l_width.as_slice());
    let wd = u64_to_dec(info.width as u64);
    append_bytes(&mut out, wd.as_slice());
    append_bytes(&mut out, l_height.as_slice());
    let hd = u64_to_dec(info.height as u64);
    append_bytes(&mut out, hd.as_slice());
    out.push(0x7du8);
    proof {
        assert(seq![0x7du8] =~= lit_close());
        assert(out@ =~= encode_image_info_s(info@));
    }
    out
}

// ---------------------------------------------------------------- parsing

/// The descriptor encoded in `s`, if `s` is exactly one well-formed
/// serialized descriptor whose string fields are valid UTF-8; nothing
/// otherwise.
pub open spec fn parse_image_info_s(s: Seq<u8>) -> Option<ImageInfoS> {
    match expect_at(s, 0, lit_open()) {
        None => None,
        Some(p1) => match parse_jstring_at(s, p1) {
            None => None,
            Some((oid, p2)) => match expect_at(s, p2, lit_xobject()) {
                None => None,
                Some(p3) => match parse_jstring_at(s, p3) {
                    None => None,
                    Some((xid, p4t)) => {
                        let typed: Option<(ImageTypeInfo, int)> = match expect_at(
                            s,
                            p4t,
                            lit_type(),
                        ) {
                            None => None,
                            Some(p4) => match expect_at(s, p4, lit_ty_image()) {
                                Some(p5) => Some((ImageTypeInfo::Image, p5)),
                                None => match expect_at(s, p4, lit_ty_svg()) {
                                    Some(p5) => Some((ImageTypeInfo::Svg, p5)),
                                    None => None,
                                },
                            },
                        };
                        match typed {
                            None => None,
                            Some((ty, p5)) => match expect_at(s, p5, lit_width()) {
                                None => None,
                                Some(p6) => match parse_usize_at(s, p6) {
                                    None => None,
                                    Some((w, p7)) => match expect_at(s, p7, lit_height()) {
                                        None => None,
                                        Some(p8) => match parse_usize_at(s, p8) {
                                            None => None,
                                            Some((h, p9)) => match expect_at(s, p9, lit_close()) {
                                                None => None,
                                                Some(p10) => if p10 == s.len() && valid_utf8(oid)
                                                    && valid_utf8(xid) {
                                                    Some(
                                                        ImageInfoS {
                                                            original_id: decode_utf8(oid),
                                                            xobject_id: decode_utf8(xid),
                                                            image_type: ty,
                                                            width: w,
                                                            height: h,
                                                        },
                                                    )
                                                } else {
                                                    None
                                                },
                                            },
                                        },
                                    },
                                },
                            },
                        }
                    },
                },
            },
        },
    }
}

/// Relies on `String::from_utf8`: on valid UTF-8 input it returns exactly
/// the string whose encoding is that input, and an error otherwise.
#[verifier::external_body]
pub(crate) fn bytes_to_string(v: Vec<u8>) -> (r: Option<String>)
    ensures
        r is Some <==> valid_utf8(v@),
        r matches Some(s) ==> s@ == decode_utf8(v@) && encode_utf8(s@) == v@,
{
    match String::from_utf8(v) {
        Ok(s) => Some(s),
        Err(_) => None,
    }
}

/// Deserialize a resource descriptor; see [`parse_image_info_s`].
pub fn parse_image_info(s: &[u8]) -> (r: Option<ImageInfo>)
    ensures
        match r {
            Some(info) => parse_image_info_s(s@) == Some(info@),
            None => parse_image_info_s(s@) is None,
        },
{
    let l_open: [u8; 16] = [
        0x7bu8, 0x22u8, 0x6fu8, 0x72u8, 0x69u8, 0x67u8, 0x69u8, 0x6eu8, 0x61u8, 0x6cu8, 0x5fu8, 0x69u8, 0x64u8, 0x22u8, 0x3au8,
        0x22u8,
    ];
    let l_xobject: [u8; 15] = [
        0x2cu8, 0x22u8, 0x78u8, 0x6fu8, 0x62u8, 0x6au8, 0x65u8, 0x63u8, 0x74u8, 0x5fu8, 0x69u8, 0x64u8, 0x22u8, 0x3au8, 0x22u8,
    ];
    let l_type: [u8; 15] = [
        0x2cu8, 0x22u8, 0x69u8, 0x6du8, 0x61u8, 0x67u8, 0x65u8, 0x5fu8, 0x74u8, 0x79u8, 0x70u8, 0x65u8, 0x22u8, 0x3au8, 0x22u8,
    ];
    let l_ty_image: [u8; 6] = [0x49u8, 0x6du8, 0x61u8, 0x67u8, 0x65u8, 0x22u8];
    let l_ty_svg: [u8; 4] = [0x53u8, 0x76u8, 0x67u8, 0x22u8];
    let l_width: [u8; 9] = [0x2cu8, 0x22u8, 0x77u8, 0x69u8, 0x64u8, 0x74u8, 0x68u8, 0x22u8, 0x3au8];
    let l_height: [u8; 10] = [0x2cu8, 0x22u8, 0x68u8, 0x65u8, 0x69u8, 0x67u8, 0x68u8, 0x74u8, 0x22u8, 0x3au8];
    proof {
        assert(l_open@ =~= lit_open());
        assert(l_xobject@ =~= lit_xobject());
        assert(l_type@ =~= lit_type());
        assert(l_ty_image@ =~= lit_ty_image());
        assert(l_ty_svg@ =~= lit_ty_svg());
        assert(l_width@ =~= lit_width());
        assert(l_height@ =~= lit_height());
    }
    let p1 = match expect_bytes(s, 0, l_open.as_slice()) {
        Some(p) => p,
        None => {
            return None;
        },
    };
    let (oid_bytes, p2) = match parse_jstring(s, p1) {
        Some(x) => x,
        None => {
            return None;
        },
    };
    let p3 = match expect_bytes(s, p2, l_xobject.as_slice()) {
        Some(p) => p,
        None => {
            return None;
        },
    };
    let (xid_bytes, p4t) = match parse_jstring(s, p3) {
        Some(x) => x,
        None => {
            return None;
        },
    };
    let p4 = match expect_bytes(s, p4t, l_type.as_slice()) {
        Some(p) => p,
        None => {
            return None;
        },
    };
    let (ty, p5) = match expect_bytes(s, p4, l_ty_image.as_slice()) {
        Some(p) => (ImageTypeInfo::Image, p),
        None => match expect_bytes(s, p4, l_ty_svg.as_slice()) {
            Some(p) => (ImageTypeInfo::Svg, p),
            None => {
                return None;
            },
        },
    };
    let p6 = match expect_bytes(s, p5, l_width.as_slice()) {
        Some(p) => p,
        None => {
            return None;
        },
    };
    let (w, p7) = match parse_usize(s, p6) {
        Some(x) => x,
        None => {
            return None;
        },
    };
    let p8 = match expect_bytes(s, p7, l_height.as_slice()) {
        Some(p) => p,
        None => {
            return None;
        },
    };
    let (h, p9) = match parse_usize(s, p8) {
        Some(x) => x,
        None => {
            return None;
        },
    };
    let l_close: [u8; 1] = [0x7du8];
    proof {
        assert(l_close@ =~= lit_close());
    }
    let p10 = match expect_bytes(s, p9, l_close.as_slice()) {
        Some(p) => p,
        None => {
            return None;
        },
    };
    if p10 != s.len() {
        return None;
    }
    let oid = match bytes_to_string(oid_bytes) {
        Some(x) => x,
        None => {
            return None;
        },
    };
    let xid = match bytes_to_string(xid_bytes) {
        Some(x) => x,
        None => {
            return None;
        },
    };
    Some(ImageInfo { original_id: oid, xobject_id: xid, image_type: ty, width: w, height: h })
}

/// The serialized descriptor parses back to exactly the descriptor: the
/// opaque tag written into the markup during ingestion is recovered
/// unchanged at emission time, whatever the descriptor holds.
#[verifier::rlimit(80)]
pub proof fn lemma_descriptor_round_trip(info: ImageInfoS)
    ensures
        parse_image_info_s(encode_image_info_s(info)) == Some(info),
{
    let o1 = encode_utf8(info.original_id);
    let o2 = encode_utf8(info.xobject_id);
    let e1 = escape_bytes(o1);
    let e2 = escape_bytes(o2);
    let tyl = ty_lit(info.image_type);
    let d1 = dec_rep(info.width as nat);
    let d2 = dec_rep(info.height as nat);
    let q = seq![0x22u8];
    let s = encode_image_info_s(info);
    let p1 = lit_open().len() as int;
    let p2 = p1 + e1.len() + 1;
    let p3 = p2 + lit_xobject().len();
    let p4t = p3 + e2.len() + 1;
    let p4 = p4t + lit_type().len();
    let p5 = p4 + tyl.len();
    let p6 = p5 + lit_width().len();
    let p7 = p6 + d1.len();
    let p8 = p7 + lit_height().len();
    let p9 = p8 + d2.len();
    assert(s.len() == p9 + 1);
    assert(s.subrange(0, p1) =~= lit_open());
    lemma_expect_exact(s, 0, lit_open());
    assert(s.subrange(p1, p1 + e1.len()) =~= e1);
    assert(s[p1 + e1.len()] == 0x22);
    lemma_parse_escaped_exact(s, p1, o1);
    assert(s.subrange(p2, p2 + lit_xobject().len()) =~= lit_xobject());
    lemma_expect_exact(s, p2, lit_xobject());
    assert(s.subrange(p3, p3 + e2.len()) =~= e2);
    assert(s[p3 + e2.len()] == 0x22);
    lemma_parse_escaped_exact(s, p3, o2);
    assert(s.subrange(p4t, p4t + lit_type().len()) =~= lit_type());
    lemma_expect_exact(s, p4t, lit_type());
    match info.image_type {
        ImageTypeInfo::Image => {
            assert(s.subrange(p4, p4 + lit_ty_image().len()) =~= lit_ty_image());
            lemma_expect_exact(s, p4, lit_ty_image());
        },
        ImageTypeInfo::Svg => {
            assert(s.subrange(p4, p4 + lit_ty_svg().len()) =~= lit_ty_svg());
            lemma_expect_exact(s, p4, lit_ty_svg());
            if p4 + lit_ty_image().len() <= s.len() {
                assert(s.subrange(p4, p4 + lit_ty_image().len())[0] == 0x53);
                assert(s.subrange(p4, p4 + lit_ty_image().len()) != lit_ty_image());
            }
            assert(expect_at(s, p4, lit_ty_image()) is None);
        },
    }
    assert(s.subrange(p5, p5 + lit_width().len()) =~= lit_width());
    lemma_expect_exact(s, p5, lit_width());
    assert(s.subrange(p6, p6 + d1.len()) =~= d1);
    assert(s[p7] == 0x2c && !is_dec_digit(s[p7]));
    lemma_parse_dec_exact(s, p6, info.width as nat);
    assert(s.subrange(p7, p7 + lit_height().len()) =~= lit_height());
    lemma_expect_exact(s, p7, lit_height());
    assert(s.subrange(p8, p8 + d2.len()) =~= d2);
    assert(s[p9] == 0x7d && !is_dec_digit(s[p9]));
    lemma_parse_dec_exact(s, p8, info.height as nat);
    assert(s.subrange(p9, p9 + lit_close().len()) =~= lit_close());
    lemma_expect_exact(s, p9, lit_close());
    vstd::utf8::encode_utf8_valid_utf8(info.original_id);
    vstd::utf8::encode_utf8_valid_utf8(info.xobject_id);
    vstd::utf8::encode_utf8_decode_utf8(info.original_id);
    vstd::utf8::encode_utf8_decode_utf8(info.xobject_id);
}

/// Leading zeros do not change the value of a digit sequence.
proof fn lemma_dec_val_leading_zeroes(k: nat, d: Seq<u8>)
    ensures
        dec_val(zeroes(k) + d) == dec_val(d),
    decreases d.len(),
{
    if d.len() == 0 {
        assert(zeroes(k) + d =~= zeroes(k));
        lemma_dec_val_zeroes(k);
    } else {
        lemma_dec_val_leading_zeroes(k, d.drop_last());
        assert((zeroes(k) + d).drop_last() =~= zeroes(k) + d.drop_last());
        assert((zeroes(k) + d).last() == d.last());
    }
}

/// A run of zeros has value zero.
proof fn lemma_dec_val_zeroes(k: nat)
    ensures
        dec_val(zeroes(k)) == 0,
    decreases k,
{
    if k > 0 {
        lemma_dec_val_zeroes((k - 1) as nat);
        assert(zeroes(k).drop_last() =~= zeroes((k - 1) as nat));
        assert(zeroes(k).last() == 0x30);
    }
}

/// Distinct family keys get distinct resource names, so the name-keyed
/// font table of the document deduplicates exactly by family key.
pub proof fn lemma_font_name_injective(k1: u64, k2: u64)
    requires
        k1 != k2,
    ensures
        font_name_chars(k1) != font_name_chars(k2),
{
    if font_name_chars(k1) == font_name_chars(k2) {
        reveal_with_fuel(pow10, 21);
        lemma_dec_rep_len(k1 as nat, 20);
        lemma_dec_rep_len(k2 as nat, 20);
        let d1 = font_key_digits(k1);
        let d2 = font_key_digits(k2);
        let p = "azul_font_family_"@;
        assert forall|i: int| 0 <= i < d1.len() implies d1[i] == d2[i] by {
            assert(font_name_chars(k1)[p.len() + i] == ascii_chars_of(d1)[i]);
            assert(font_name_chars(k2)[p.len() + i] == ascii_chars_of(d2)[i]);
            assert((d1[i] as char) == (d2[i] as char));
            assert((d1[i] as char) as u32 == d1[i] as u32);
            assert((d2[i] as char) as u32 == d2[i] as u32);
        }
        assert(d1 =~= d2);
        lemma_dec_val_leading_zeroes((32 - dec_rep(k1 as nat).len()) as nat, dec_rep(k1 as nat));
        lemma_dec_val_leading_zeroes((32 - dec_rep(k2 as nat).len()) as nat, dec_rep(k2 as nat));
        lemma_dec_val_of_rep(k1 as nat);
        lemma_dec_val_of_rep(k2 as nat);
        assert(dec_val(d1) == k1 && dec_val(d2) == k2);
        assert(false);
    }
}

// ------------------------------------------------------------ font names

/// A run of ASCII zeros.
pub open spec fn zeroes(k: nat) -> Seq<u8> {
    Seq::new(k, |i: int| 0x30u8)
}

/// The fixed-width decimal spelling of a font family key: the key's decimal
/// numeral, left-padded with zeros to thirty-two digits.
pub open spec fn font_key_digits(key: u64) -> Seq<u8> {
    zeroes((32 - dec_rep(key as nat).len()) as nat) + dec_rep(key as nat)
}

/// The resource name of the embedded font for one family key.
pub open spec fn font_name_chars(key: u64) -> Seq<char> {
    "azul_font_family_"@ + ascii_chars_of(font_key_digits(key))
}

/// Build the stable resource name for a font family key. Identical keys give
/// the identical name, so re-lookups within one render are cache hits.
pub fn font_resource_name(key: u64) -> (r: String)
    ensures
        r@ == font_name_chars(key),
{
    let digits = u64_to_dec(key);
    proof {
        reveal_with_fuel(pow10, 21);
        lemma_dec_rep_len(key as nat, 20);
    }
    let mut padded: Vec<u8> = Vec::new();
    let pad: usize = 32 - digits.len();
    while padded.len() < pad
        invariant
            padded@ =~= zeroes(padded@.len() as nat),
            padded@.len() <= pad,
        decreases pad - padded@.len(),
    {
        padded.push(0x30u8);
        proof {
            assert(padded@ =~= zeroes(padded@.len() as nat));
        }
    }
    proof {
        assert(padded@ == zeroes((32 - dec_rep(key as nat).len()) as nat));
    }
    append_bytes(&mut padded, digits.as_slice());
    proof {
        assert(padded@ == font_key_digits(key));
        lemma_dec_rep_digits(key as nat);
        assert forall|i: int| 0 <= i < padded@.len() implies padded@[i] < 0x80 by {
            if i < zeroes((32 - dec_rep(key as nat).len()) as nat).len() {
                assert(padded@[i] == 0x30u8);
            } else {
                assert(padded@[i] == dec_rep(key as nat)[i - (32 - dec_rep(
                    key as nat,
                ).len())]);
            }
        }
        lemma_ascii_utf8(padded@);
    }
    let ghost padded_view = padded@;
    let digit_str = match bytes_to_string(padded) {
        Some(x) => x,
        None => {
            proof {
                assert(false);
            }
            String::new()
        },
    };
    let mut name = String::from_str("azul_font_family_");
    name.append(digit_str.as_str());
    proof {
        assert(digit_str@ == ascii_chars_of(padded_view));
    }
    name
}

} // verus!
