//! Pre-pass asset ingestion and markup fixup.
//!
//! Before the markup is handed to the external layout engine, every
//! declared image source is decoded (vector markup first, then raster) and
//! registered as a page resource; the resulting descriptor is serialized
//! and written into the markup in place of the source's logical name, so
//! that it travels through parsing and styling as opaque data. The decode
//! and the registration happen outside; this module owns every decision
//! around them: which descriptor a decode outcome yields, and the byte
//! rewriting of the markup.

use crate::codec::{append_bytes, expect_bytes};
use crate::resources::{ImageInfo, ImageInfoS, ImageTypeInfo};
use crate::tag::{encode_image_info, encode_image_info_s};
use vstd::prelude::*;
use vstd::utf8::encode_utf8;

verus! {

// -------------------------------------------------------- decode outcome

/// What the bytes of one declared image source decoded as: vector markup
/// with its declared intrinsic size (zero when undeclared), a raster image
/// with its pixel size, or nothing.
#[derive(Debug, Clone, Copy, PartialEq, Eq, Structural)]
pub enum DecodeOutcome {
    Vector { width: usize, height: usize },
    Raster { width: usize, height: usize },
    Failed,
}

/// Build the resource descriptor for one declared source from its decode
/// outcome and the id the page container assigned: a vector source becomes
/// a vector descriptor, a raster source a raster descriptor, and a source
/// that did not decode yields nothing (the source is skipped, never a hard
/// failure).
pub fn make_image_info(original_id: &String, xobject_id: String, outcome: &DecodeOutcome) -> (r:
    Option<ImageInfo>)
    ensures
        match r {
            Option::Some(info) => {
                &&& !(outcome is Failed)
                &&& info@.original_id == original_id@
                &&& info@.xobject_id == xobject_id@
                &&& (match *outcome {
                    DecodeOutcome::Vector { width, height } => info@.image_type
                        == ImageTypeInfo::Svg && info@.width == width && info@.height == height,
                    DecodeOutcome::Raster { width, height } => info@.image_type
                        == ImageTypeInfo::Image && info@.width == width && info@.height == height,
                    DecodeOutcome::Failed => false,
                })
            },
            Option::None => outcome is Failed,
        },
{
    match outcome {
        DecodeOutcome::Vector { width, height } => Option::Some(
            ImageInfo {
                original_id: original_id.clone(),
                xobject_id,
                image_type: ImageTypeInfo::Svg,
                width: *width,
                height: *height,
            },
        ),
        DecodeOutcome::Raster { width, height } => Option::Some(
            ImageInfo {
                original_id: original_id.clone(),
                xobject_id,
                image_type: ImageTypeInfo::Image,
                width: *width,
                height: *height,
            },
        ),
        DecodeOutcome::Failed => Option::None,
    }
}

// ------------------------------------------------------- byte utilities

/// Whether `pat` occurs anywhere in `s`.
pub open spec fn has_sub(s: Seq<u8>, pat: Seq<u8>) -> bool {
    exists|i: int|
        0 <= i && i + pat.len() <= s.len() && #[trigger] s.subrange(i, i + pat.len()) == pat
}

/// Search for `pat` in `s`.
#[verifier::loop_isolation(false)]
pub fn contains_sub(s: &[u8], pat: &[u8]) -> (r: bool)
    ensures
        r == has_sub(s@, pat@),
{
    if pat.len() == 0 {
        proof {
            assert(s@.subrange(0, 0 + pat@.len() as int) =~= pat@);
            assert(has_sub(s@, pat@));
        }
        return true;
    }
    if pat.len() > s.len() {
        proof {
            assert(!has_sub(s@, pat@));
        }
        return false;
    }
    let n = s.len();
    let mut i: usize = 0;
    while i <= n - pat.len()
        invariant
            pat@.len() <= s@.len(),
            n == s@.len(),
            i <= s@.len() - pat@.len() + 1,
            forall|j: int|
                0 <= j < i ==> #[trigger] s@.subrange(j, j + pat@.len()) != pat@,
        decreases s@.len() - pat@.len() + 1 - i,
    {
        match expect_bytes(s, i, pat) {
            Option::Some(_) => {
                proof {
                    assert(s@.subrange(i as int, i as int + pat@.len()) == pat@);
                }
                return true;
            },
            Option::None => {
                proof {
                    assert(s@.subrange(i as int, i as int + pat@.len()) != pat@);
                }
            },
        }
        i = i + 1;
    }
    false
}

/// `s` with every occurrence of `from` replaced by `to`, scanning left to
/// right without rescanning replacements. An empty pattern replaces
/// nothing.
pub open spec fn replace_all_s(s: Seq<u8>, from: Seq<u8>, to: Seq<u8>) -> Seq<u8>
    decreases s.len(),
{
    if from.len() == 0 || s.len() == 0 {
        s
    } else if s.len() >= from.len() && s.subrange(0, from.len() as int) == from {
        to + replace_all_s(s.skip(from.len() as int), from, to)
    } else {
        seq![s[0]] + replace_all_s(s.drop_first(), from, to)
    }
}

/// Replace every occurrence of `from` in `s` by `to`.
#[verifier::loop_isolation(false)]
pub fn replace_all(s: &[u8], from: &[u8], to: &[u8]) -> (r: Vec<u8>)
    ensures
        r@ == replace_all_s(s@, from@, to@),
{
    if from.len() == 0 {
        return vstd::slice::slice_to_vec(s);
    }
    let mut out: Vec<u8> = Vec::new();
    let mut cur: usize = 0;
    proof {
        assert(s@.skip(0) =~= s@);
    }
    while cur < s.len()
        invariant
            from@.len() > 0,
            cur <= s@.len(),
            replace_all_s(s@, from@, to@) == out@ + replace_all_s(s@.skip(cur as int), from@, to@),
        decreases s@.len() - cur,
    {
        match expect_bytes(s, cur, from) {
            Option::Some(next) => {
                proof {
                    assert(s@.skip(cur as int).subrange(0, from@.len() as int) =~= s@.subrange(
                        cur as int,
                        cur as int + from@.len(),
                    ));
                    assert(s@.skip(cur as int).skip(from@.len() as int) =~= s@.skip(
                        cur as int + from@.len(),
                    ));
                    assert((out@ + to@) + replace_all_s(
                        s@.skip(cur as int + from@.len()),
                        from@,
                        to@,
                    ) =~= out@ + replace_all_s(s@.skip(cur as int), from@, to@));
                }
                append_bytes(&mut out, to);
                cur = next;
            },
            Option::None => {
                proof {
                    if s@.len() - cur >= from@.len() {
                        assert(s@.skip(cur as int).subrange(0, from@.len() as int) =~= s@.subrange(
                            cur as int,
                            cur as int + from@.len(),
                        ));
                    }
                    assert(s@.skip(cur as int).drop_first() =~= s@.skip(cur as int + 1));
                    assert((out@ + seq![s@[cur as int]]) + replace_all_s(
                        s@.skip(cur as int + 1),
                        from@,
                        to@,
                    ) =~= out@ + replace_all_s(s@.skip(cur as int), from@, to@));
                }
                out.push(s[cur]);
                cur = cur + 1;
            },
        }
    }
    proof {
        assert(s@.skip(s@.len() as int) =~= Seq::<u8>::empty());
        assert(out@ + replace_all_s(Seq::<u8>::empty(), from@, to@) =~= out@);
    }
    out
}

/// Whether a byte is ASCII whitespace.
pub open spec fn is_ws(b: u8) -> bool {
    b == 0x20 || b == 0x09 || b == 0x0a || b == 0x0d
}

/// The first index at or after `i` that is not whitespace.
pub open spec fn ws_start(s: Seq<u8>, i: int) -> int
    decreases s.len() - i,
{
    if i < 0 || i >= s.len() || !is_ws(s[i]) {
        i
    } else {
        ws_start(s, i + 1)
    }
}

/// The end of the non-whitespace core: the least `j <= i` such that
/// everything from `j` on is whitespace, scanning from the right.
pub open spec fn ws_end(s: Seq<u8>, i: int) -> int
    decreases i,
{
    if i <= 0 || !is_ws(s[i - 1]) {
        i
    } else {
        ws_end(s, i - 1)
    }
}

/// `s` without leading and trailing ASCII whitespace.
pub open spec fn trim_s(s: Seq<u8>) -> Seq<u8> {
    let a = ws_start(s, 0);
    let b = ws_end(s, s.len() as int);
    if a <= b {
        s.subrange(a, b)
    } else {
        Seq::empty()
    }
}

/// Strip leading and trailing ASCII whitespace.
#[verifier::loop_isolation(false)]
pub fn trim_bytes(s: &[u8]) -> (r: Vec<u8>)
    ensures
        r@ == trim_s(s@),
{
    let mut a: usize = 0;
    while a < s.len() && (s[a] == 0x20 || s[a] == 0x09 || s[a] == 0x0a || s[a] == 0x0d)
        invariant
            a <= s@.len(),
            ws_start(s@, 0) == ws_start(s@, a as int),
            forall|j: int| 0 <= j < a ==> is_ws(#[trigger] s@[j]),
        decreases s@.len() - a,
    {
        a = a + 1;
    }
    proof {
        assert(ws_start(s@, a as int) == a as int);
    }
    let mut b: usize = s.len();
    while b > a && (s[b - 1] == 0x20 || s[b - 1] == 0x09 || s[b - 1] == 0x0a || s[b - 1] == 0x0d)
        invariant
            a <= b <= s@.len(),
            ws_end(s@, s@.len() as int) == ws_end(s@, b as int),
        decreases b,
    {
        b = b - 1;
    }
    proof {
        if b > a {
            assert(ws_end(s@, b as int) == b as int);
        } else {
            assert(b == a);
            if b > 0 && is_ws(s@[b as int - 1]) {
                assert(ws_end(s@, b as int) == ws_end(s@, b as int - 1));
                assert(ws_start(s@, 0) == a as int);
                assert(forall|j: int| 0 <= j < a ==> is_ws(s@[j]));
                lemma_ws_end_low(s@, b as int);
            } else {
                assert(ws_end(s@, b as int) == b as int);
            }
        }
    }
    let mut out: Vec<u8> = Vec::new();
    let mut i: usize = a;
    while i < b
        invariant
            a <= i <= b <= s@.len(),
            out@ =~= s@.subrange(a as int, i as int),
        decreases b - i,
    {
        out.push(s[i]);
        proof {
            assert(s@.subrange(a as int, i as int + 1) =~= s@.subrange(a as int, i as int).push(
                s@[i as int],
            ));
        }
        i = i + 1;
    }
    proof {
        assert(ws_end(s@, s@.len() as int) >= ws_start(s@, 0) ==> trim_s(s@) == s@.subrange(
            ws_start(s@, 0),
            ws_end(s@, s@.len() as int),
        ));
    }
    out
}

// ------------------------------------------------------------ markup fixup

/// `<body>`.
pub open spec fn lit_body_open() -> Seq<u8> {
    seq![0x3cu8, 0x62u8, 0x6fu8, 0x64u8, 0x79u8, 0x3eu8]
}

/// `</body>`.
pub open spec fn lit_body_close() -> Seq<u8> {
    seq![0x3cu8, 0x2fu8, 0x62u8, 0x6fu8, 0x64u8, 0x79u8, 0x3eu8]
}

/// `<html>`.
pub open spec fn lit_html_open() -> Seq<u8> {
    seq![0x3cu8, 0x68u8, 0x74u8, 0x6du8, 0x6cu8, 0x3eu8]
}

/// `</html>`.
pub open spec fn lit_html_close() -> Seq<u8> {
    seq![0x3cu8, 0x2fu8, 0x68u8, 0x74u8, 0x6du8, 0x6cu8, 0x3eu8]
}

/// `src='`.
pub open spec fn lit_src_sq() -> Seq<u8> {
    seq![0x73u8, 0x72u8, 0x63u8, 0x3du8, 0x27u8]
}

/// `src="`.
pub open spec fn lit_src_dq() -> Seq<u8> {
    seq![0x73u8, 0x72u8, 0x63u8, 0x3du8, 0x22u8]
}

/// The markup wrapped in a body element when it has none, else trimmed.
pub open spec fn body_step_s(s: Seq<u8>) -> Seq<u8> {
    if !has_sub(s, lit_body_open()) {
        lit_body_open() + s + lit_body_close()
    } else {
        trim_s(s)
    }
}

/// The markup wrapped in an html element when it has none, else trimmed.
pub open spec fn html_step_s(s: Seq<u8>) -> Seq<u8> {
    if !has_sub(s, lit_html_open()) {
        lit_html_open() + s + lit_html_close()
    } else {
        trim_s(s)
    }
}

/// The markup after the structural pass: body and html wrappers ensured,
/// whitespace trimmed.
pub open spec fn fixup_pre_s(s: Seq<u8>) -> Seq<u8> {
    trim_s(html_step_s(body_step_s(s)))
}

/// The markup after rewriting the sources of the descriptors from `i` on:
/// for each, every `src='name'` and `src="name"` becomes `src='descriptor'`
/// with the serialized descriptor inline.
pub open spec fn apply_images_s(s: Seq<u8>, infos: Seq<ImageInfoS>, i: int) -> Seq<u8>
    decreases infos.len() - i,
{
    if i < 0 || i >= infos.len() {
        s
    } else {
        let k = encode_utf8(infos[i].original_id);
        let json = encode_image_info_s(infos[i]);
        let repl = lit_src_sq() + json + seq![0x27u8];
        let s1 = replace_all_s(s, lit_src_sq() + k + seq![0x27u8], repl);
        let s2 = replace_all_s(s1, lit_src_dq() + k + seq![0x22u8], repl);
        apply_images_s(s2, infos, i + 1)
    }
}

/// The values of a list of descriptors.
pub open spec fn infos_view(v: Seq<ImageInfo>) -> Seq<ImageInfoS> {
    v.map_values(|x: ImageInfo| x@)
}

/// The whole markup fixup: wrappers and trim, then the source rewrite for
/// every ingested descriptor in order.
pub open spec fn fixup_xml_s(s: Seq<u8>, infos: Seq<ImageInfoS>) -> Seq<u8> {
    apply_images_s(fixup_pre_s(s), infos, 0)
}

/// Prepare markup for the external layout engine: wrap it in body and html
/// elements when they are missing, trim it, and rewrite every reference to
/// an ingested image source into the inline serialized descriptor, so that
/// the descriptor is recoverable unchanged at emission time.
#[verifier::loop_isolation(false)]
pub fn fixup_xml(s: &[u8], images: &Vec<ImageInfo>) -> (r: Vec<u8>)
    ensures
        r@ == fixup_xml_s(s@, infos_view(images@)),
{
    let body_open: [u8; 6] = [0x3cu8, 0x62u8, 0x6fu8, 0x64u8, 0x79u8, 0x3eu8];
    let body_close: [u8; 7] = [0x3cu8, 0x2fu8, 0x62u8, 0x6fu8, 0x64u8, 0x79u8, 0x3eu8];
    let html_open: [u8; 6] = [0x3cu8, 0x68u8, 0x74u8, 0x6du8, 0x6cu8, 0x3eu8];
    let html_close: [u8; 7] = [0x3cu8, 0x2fu8, 0x68u8, 0x74u8, 0x6du8, 0x6cu8, 0x3eu8];
    let src_sq: [u8; 5] = [0x73u8, 0x72u8, 0x63u8, 0x3du8, 0x27u8];
    let src_dq: [u8; 5] = [0x73u8, 0x72u8, 0x63u8, 0x3du8, 0x22u8];
    proof {
        assert(body_open@ =~= lit_body_open());
        assert(body_close@ =~= lit_body_close());
        assert(html_open@ =~= lit_html_open());
        assert(html_close@ =~= lit_html_close());
        assert(src_sq@ =~= lit_src_sq());
        assert(src_dq@ =~= lit_src_dq());
    }
    let with_body: Vec<u8> = if !contains_sub(s, body_open.as_slice()) {
        let mut w: Vec<u8> = Vec::new();
        append_bytes(&mut w, body_open.as_slice());
        append_bytes(&mut w, s);
        append_bytes(&mut w, body_close.as_slice());
        w
    } else {
        trim_bytes(s)
    };
    let with_html: Vec<u8> = if !contains_sub(with_body.as_slice(), html_open.as_slice()) {
        let mut w: Vec<u8> = Vec::new();
        append_bytes(&mut w, html_open.as_slice());
        append_bytes(&mut w, with_body.as_slice());
        append_bytes(&mut w, html_close.as_slice());
        w
    } else {
        trim_bytes(with_body.as_slice())
    };
    let mut cur: Vec<u8> = trim_bytes(with_html.as_slice());
    proof {
        assert(cur@ == fixup_pre_s(s@));
    }
    let ghost infos = infos_view(images@);
    let mut i: usize = 0;
    while i < images.len()
        invariant
            i <= images@.len(),
            infos == infos_view(images@),
            fixup_xml_s(s@, infos) == apply_images_s(cur@, infos, i as int),
        decreases images@.len() - i,
    {
        let info = &images[i];
        let json = encode_image_info(info);
        let kb = info.original_id.as_str().as_bytes();
        let mut pat_sq: Vec<u8> = Vec::new();
        append_bytes(&mut pat_sq, src_sq.as_slice());
        append_bytes(&mut pat_sq, kb);
        pat_sq.push(0x27);
        let mut pat_dq: Vec<u8> = Vec::new();
        append_bytes(&mut pat_dq, src_dq.as_slice());
        append_bytes(&mut pat_dq, kb);
        pat_dq.push(0x22);
        let mut repl: Vec<u8> = Vec::new();
        append_bytes(&mut repl, src_sq.as_slice());
        append_bytes(&mut repl, json.as_slice());
        repl.push(0x27);
        proof {
            assert(infos[i as int] == images@[i as int]@);
            assert(pat_sq@ =~= lit_src_sq() + encode_utf8(infos[i as int].original_id) + seq![
                0x27u8,
            ]);
            assert(pat_dq@ =~= lit_src_dq() + encode_utf8(infos[i as int].original_id) + seq![
                0x22u8,
            ]);
            assert(repl@ =~= lit_src_sq() + encode_image_info_s(infos[i as int]) + seq![0x27u8]);
        }
        let step1 = replace_all(cur.as_slice(), pat_sq.as_slice(), repl.as_slice());
        let step2 = replace_all(step1.as_slice(), pat_dq.as_slice(), repl.as_slice());
        cur = step2;
        i = i + 1;
    }
    cur
}

/// Within an all-whitespace prefix, `ws_end` runs to the start.
proof fn lemma_ws_end_low(s: Seq<u8>, i: int)
    requires
        0 <= i <= s.len(),
        forall|j: int| 0 <= j < i ==> is_ws(s[j]),
    ensures
        ws_end(s, i) == 0,
    decreases i,
{
    if i > 0 {
        lemma_ws_end_low(s, i - 1);
    }
}

} // verus!
