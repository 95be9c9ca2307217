//! Byte-level building blocks for the resource-descriptor encoding: ASCII
//! reasoning, decimal numerals, and the escaped string form used inside the
//! serialized descriptor.

use vstd::prelude::*;
use vstd::utf8::{decode_utf8, encode_utf8, valid_utf8};

verus! {

// ------------------------------------------------------------------ ASCII

/// The characters spelled by a sequence of ASCII bytes.
pub open spec fn ascii_chars_of(bytes: Seq<u8>) -> Seq<char> {
    Seq::new(bytes.len(), |i: int| bytes[i] as char)
}

/// Every byte of the sequence is ASCII.
pub open spec fn all_ascii(bytes: Seq<u8>) -> bool {
    forall|i: int| 0 <= i < bytes.len() ==> bytes[i] < 0x80
}

/// ASCII bytes are valid UTF-8 and decode to themselves, one character per
/// byte.
pub proof fn lemma_ascii_utf8(bytes: Seq<u8>)
    requires
        all_ascii(bytes),
    ensures
        valid_utf8(bytes),
        decode_utf8(bytes) == ascii_chars_of(bytes),
        encode_utf8(ascii_chars_of(bytes)) == bytes,
{
    let chars = ascii_chars_of(bytes);
    assert forall|i: int| 0 <= i < chars.len() implies '\0' <= #[trigger] chars[i]
        <= '\u{7f}' by {
        assert(bytes[i] < 0x80);
    }
    assert(vstd::utf8::is_ascii_chars(chars));
    vstd::utf8::is_ascii_chars_encode_utf8(chars);
    assert(encode_utf8(chars) =~= bytes);
    vstd::utf8::encode_utf8_valid_utf8(chars);
    vstd::utf8::encode_utf8_decode_utf8(chars);
}

// ---------------------------------------------------------------- decimal

/// The ASCII digit for one decimal value.
pub open spec fn dec_digit(d: nat) -> u8
    recommends
        d < 10,
{
    (0x30 + d) as u8
}

/// The decimal numeral of `n`: ASCII digits, no leading zeros, `"0"` for
/// zero.
pub open spec fn dec_rep(n: nat) -> Seq<u8>
    decreases n,
{
    if n < 10 {
        seq![dec_digit(n)]
    } else {
        dec_rep(n / 10).push(dec_digit(n % 10))
    }
}

/// Whether a byte is an ASCII decimal digit.
pub open spec fn is_dec_digit(b: u8) -> bool {
    0x30 <= b <= 0x39
}

/// The value of a sequence of ASCII digits.
pub open spec fn dec_val(s: Seq<u8>) -> nat
    decreases s.len(),
{
    if s.len() == 0 {
        0
    } else {
        dec_val(s.drop_last()) * 10 + (if s.last() >= 0x30 {
            (s.last() - 0x30) as nat
        } else {
            0
        })
    }
}

/// Ten to the `k`.
pub open spec fn pow10(k: nat) -> nat
    decreases k,
{
    if k == 0 {
        1
    } else {
        10 * pow10((k - 1) as nat)
    }
}

/// Every byte of a decimal numeral is an ASCII digit.
pub proof fn lemma_dec_rep_digits(n: nat)
    ensures
        forall|i: int| 0 <= i < dec_rep(n).len() ==> is_dec_digit(#[trigger] dec_rep(n)[i]),
    decreases n,
{
    if n < 10 {
        assert(dec_rep(n) =~= seq![dec_digit(n)]);
        assert(is_dec_digit(dec_digit(n)));
    } else {
        lemma_dec_rep_digits(n / 10);
        assert(dec_rep(n) =~= dec_rep(n / 10).push(dec_digit(n % 10)));
        assert(is_dec_digit(dec_digit(n % 10)));
        assert forall|i: int| 0 <= i < dec_rep(n).len() implies is_dec_digit(
            #[trigger] dec_rep(n)[i],
        ) by {
            if i < dec_rep(n / 10).len() {
                assert(dec_rep(n)[i] == dec_rep(n / 10)[i]);
            } else {
                assert(dec_rep(n)[i] == dec_digit(n % 10));
            }
        }
    }
}

/// Reading the numeral of `n` back gives `n`.
pub proof fn lemma_dec_val_of_rep(n: nat)
    ensures
        dec_val(dec_rep(n)) == n,
    decreases n,
{
    if n < 10 {
        let s = dec_rep(n);
        assert(s =~= seq![dec_digit(n)]);
        assert(s.drop_last() =~= Seq::<u8>::empty());
        assert(dec_val(Seq::<u8>::empty()) == 0);
        assert(s.last() == dec_digit(n));
        assert(dec_val(s) == 0 * 10 + n);
    } else {
        lemma_dec_val_of_rep(n / 10);
        let s = dec_rep(n);
        assert(s == dec_rep(n / 10).push(dec_digit(n % 10)));
        assert(s.drop_last() =~= dec_rep(n / 10));
        assert(s.last() == dec_digit(n % 10));
        assert(dec_val(s) == dec_val(dec_rep(n / 10)) * 10 + n % 10);
    }
}

/// A numeral bounded by `pow10(k)` has at most `k` digits.
pub proof fn lemma_dec_rep_len(n: nat, k: nat)
    requires
        k >= 1,
        n < pow10(k),
    ensures
        dec_rep(n).len() <= k,
    decreases n,
{
    if n >= 10 {
        assert(pow10(k) == 10 * pow10((k - 1) as nat));
        lemma_dec_rep_len(n / 10, (k - 1) as nat);
    }
}

/// The value of a digit sequence is bounded by `pow10` of its length.
pub proof fn lemma_dec_val_bound(s: Seq<u8>)
    requires
        forall|i: int| 0 <= i < s.len() ==> is_dec_digit(#[trigger] s[i]),
    ensures
        dec_val(s) < pow10(s.len() as nat),
    decreases s.len(),
{
    if s.len() > 0 {
        assert(forall|i: int|
            0 <= i < s.drop_last().len() ==> is_dec_digit(#[trigger] s.drop_last()[i]));
        lemma_dec_val_bound(s.drop_last());
    }
}

/// Emit the decimal numeral of `n`.
pub fn u64_to_dec(n: u64) -> (r: Vec<u8>)
    ensures
        r@ == dec_rep(n as nat),
{
    let mut digits: Vec<u8> = Vec::new();
    let mut m: u64 = n;
    while m >= 10
        invariant
            dec_rep(n as nat) == dec_rep(m as nat) + digits@.reverse(),
        decreases m,
    {
        let d: u8 = (m % 10) as u8 + 0x30;
        proof {
            assert(dec_rep(m as nat) == dec_rep((m as nat) / 10).push(dec_digit((m as nat) % 10)));
            assert(dec_rep((m as nat) / 10) + digits@.push(d).reverse() =~= dec_rep(m as nat)
                + digits@.reverse());
        }
        digits.push(d);
        m = m / 10;
    }
    let d: u8 = (m % 10) as u8 + 0x30;
    proof {
        assert(dec_rep(m as nat) =~= seq![dec_digit(m as nat)]);
        assert(seq![d] + digits@.reverse() =~= digits@.push(d).reverse());
    }
    digits.push(d);
    let ghost target = dec_rep(n as nat);
    proof {
        assert(digits@.reverse() == target);
    }
    let mut r: Vec<u8> = Vec::new();
    let mut rest: usize = digits.len();
    while rest > 0
        invariant
            rest <= digits@.len(),
            digits@.reverse() == target,
            r@ =~= digits@.skip(rest as int).reverse(),
        decreases rest,
    {
        proof {
            assert(digits@.skip(rest as int - 1).drop_first() =~= digits@.skip(rest as int));
            assert(digits@.skip(rest as int - 1).reverse() =~= digits@.skip(
                rest as int,
            ).reverse().push(digits@[rest as int - 1]));
        }
        rest = rest - 1;
        let d2: u8 = digits[rest];
        r.push(d2);
    }
    proof {
        assert(digits@.skip(0) =~= digits@);
    }
    r
}

// ---------------------------------------------------------------- escaping

/// The lowercase hex digit for one value below sixteen.
pub open spec fn hex_digit(d: u8) -> u8
    recommends
        d < 16,
{
    if d < 10 {
        (0x30 + d) as u8
    } else {
        (0x57 + d) as u8
    }
}

/// The escaped form of one byte inside a quoted string: quote and backslash
/// get a backslash escape, control bytes the six-byte `\u00XX` form, every
/// other byte stands for itself. Bytes above the ASCII range pass through,
/// so escaping commutes with UTF-8 encoding.
pub open spec fn esc_byte(b: u8) -> Seq<u8> {
    if b == 0x22 {
        seq![0x5cu8, 0x22u8]
    } else if b == 0x5c {
        seq![0x5cu8, 0x5cu8]
    } else if b < 0x20 {
        seq![0x5cu8, 0x75u8, 0x30u8, 0x30u8, hex_digit(b / 16), hex_digit(b % 16)]
    } else {
        seq![b]
    }
}

/// The escaped form of a whole byte sequence.
pub open spec fn escape_bytes(s: Seq<u8>) -> Seq<u8>
    decreases s.len(),
{
    if s.len() == 0 {
        Seq::empty()
    } else {
        esc_byte(s[0]) + escape_bytes(s.drop_first())
    }
}

/// Escaping distributes over appending one byte.
pub proof fn lemma_escape_push(s: Seq<u8>, b: u8)
    ensures
        escape_bytes(s.push(b)) == escape_bytes(s) + esc_byte(b),
    decreases s.len(),
{
    if s.len() == 0 {
        assert(s.push(b).drop_first() =~= Seq::<u8>::empty());
        assert(s.push(b)[0] == b);
        assert(escape_bytes(Seq::<u8>::empty()) == Seq::<u8>::empty());
        assert(escape_bytes(s.push(b)) == esc_byte(b) + escape_bytes(Seq::<u8>::empty()));
        assert(escape_bytes(s.push(b)) =~= escape_bytes(s) + esc_byte(b));
    } else {
        lemma_escape_push(s.drop_first(), b);
        assert(s.push(b).drop_first() =~= s.drop_first().push(b));
        assert(s.push(b)[0] == s[0]);
        assert(esc_byte(s[0]) + (escape_bytes(s.drop_first()) + esc_byte(b)) =~= (esc_byte(s[0])
            + escape_bytes(s.drop_first())) + esc_byte(b));
    }
}

/// The lowercase hex digit for one value below sixteen.
fn hex_digit_of(d: u8) -> (r: u8)
    requires
        d < 16,
    ensures
        r == hex_digit(d),
{
    if d < 10 {
        0x30 + d
    } else {
        0x57 + d
    }
}

/// Append the escaped form of `s` to `out`.
pub fn append_escaped(out: &mut Vec<u8>, s: &[u8])
    ensures
        final(out)@ == old(out)@ + escape_bytes(s@),
{
    let ghost base = out@;
    let mut i: usize = 0;
    while i < s.len()
        invariant
            i <= s@.len(),
            out@ == base + escape_bytes(s@.take(i as int)),
        decreases s@.len() - i,
    {
        let b = s[i];
        proof {
            lemma_escape_push(s@.take(i as int), s@[i as int]);
            assert(s@.take(i as int).push(s@[i as int]) =~= s@.take(i as int + 1));
        }
        let ghost mid = out@;
        if b == 0x22 {
            out.push(0x5c);
            out.push(0x22);
        } else if b == 0x5c {
            out.push(0x5c);
            out.push(0x5c);
        } else if b < 0x20 {
            out.push(0x5c);
            out.push(0x75);
            out.push(0x30);
            out.push(0x30);
            out.push(hex_digit_of(b / 16));
            out.push(hex_digit_of(b % 16));
        } else {
            out.push(b);
        }
        proof {
            assert(out@ =~= mid + esc_byte(b));
            assert(mid + esc_byte(b) =~= base + escape_bytes(s@.take(i as int + 1)));
        }
        i = i + 1;
    }
    proof {
        assert(s@.take(s@.len() as int) =~= s@);
    }
}

// ------------------------------------------------------- generic helpers

/// Append every byte of `s` to `out`.
pub fn append_bytes(out: &mut Vec<u8>, s: &[u8])
    ensures
        final(out)@ == old(out)@ + s@,
{
    let mut i: usize = 0;
    while i < s.len()
        invariant
            i <= s@.len(),
            out@ == old(out)@ + s@.take(i as int),
        decreases s@.len() - i,
    {
        out.push(s[i]);
        proof {
            assert(old(out)@ + s@.take(i as int + 1) =~= (old(out)@ + s@.take(i as int)).push(
                s@[i as int],
            ));
        }
        i = i + 1;
    }
    proof {
        assert(s@.take(s@.len() as int) =~= s@);
    }
}

/// Where the pattern `lit` matches `s` exactly at `pos`: one past its end,
/// and nothing otherwise.
pub open spec fn expect_at(s: Seq<u8>, pos: int, lit: Seq<u8>) -> Option<int> {
    if 0 <= pos && pos + lit.len() <= s.len() && s.subrange(pos, pos + lit.len()) == lit {
        Some(pos + lit.len())
    } else {
        None
    }
}

/// Match the literal `lit` at position `pos` of `s`.
pub fn expect_bytes(s: &[u8], pos: usize, lit: &[u8]) -> (r: Option<usize>)
    requires
        pos <= s@.len(),
    ensures
        match r {
            Some(p) => expect_at(s@, pos as int, lit@) == Some(p as int),
            None => expect_at(s@, pos as int, lit@) is None,
        },
{
    if s.len() - pos < lit.len() {
        proof {
            assert(expect_at(s@, pos as int, lit@) is None);
        }
        return None;
    }
    let mut i: usize = 0;
    while i < lit.len()
        invariant
            i <= lit@.len(),
            pos + lit@.len() <= s@.len(),
            s@.len() <= usize::MAX,
            forall|j: int| 0 <= j < i ==> s@[pos + j] == lit@[j],
        decreases lit@.len() - i,
    {
        if s[pos + i] != lit[i] {
            proof {
                assert(s@.subrange(pos as int, pos + lit@.len())[i as int] != lit@[i as int]);
            }
            return None;
        }
        i = i + 1;
    }
    proof {
        assert(s@.subrange(pos as int, pos + lit@.len()) =~= lit@);
    }
    Some(pos + lit.len())
}

// ------------------------------------------------------- quoted strings

/// Whether a byte is a lowercase or uppercase ASCII hex digit.
pub open spec fn is_hex_digit(b: u8) -> bool {
    is_dec_digit(b) || 0x61 <= b <= 0x66 || 0x41 <= b <= 0x46
}

/// The value of one ASCII hex digit.
pub open spec fn hex_val(b: u8) -> u8
    recommends
        is_hex_digit(b),
{
    if is_dec_digit(b) {
        (b - 0x30) as u8
    } else if 0x61 <= b <= 0x66 {
        (b - 0x57) as u8
    } else if 0x41 <= b <= 0x46 {
        (b - 0x37) as u8
    } else {
        0
    }
}

/// Parse the remainder of a quoted string starting at `pos` (just after the
/// opening quote): the unescaped content bytes and the position one past the
/// closing quote. `None` when the bytes are not a well-formed quoted string.
pub open spec fn parse_jstring_at(s: Seq<u8>, pos: int) -> Option<(Seq<u8>, int)>
    decreases s.len() - pos,
{
    if pos < 0 || pos >= s.len() {
        None
    } else if s[pos] == 0x22 {
        Some((Seq::empty(), pos + 1))
    } else if s[pos] == 0x5c {
        if pos + 2 > s.len() {
            None
        } else if s[pos + 1] == 0x22 || s[pos + 1] == 0x5c {
            match parse_jstring_at(s, pos + 2) {
                Some((content, end)) => Some((seq![s[pos + 1]] + content, end)),
                None => None,
            }
        } else if s[pos + 1] == 0x75 {
            if pos + 6 > s.len() {
                None
            } else if s[pos + 2] == 0x30 && s[pos + 3] == 0x30 && is_hex_digit(s[pos + 4])
                && is_hex_digit(s[pos + 5]) {
                match parse_jstring_at(s, pos + 6) {
                    Some((content, end)) => Some(
                        ((seq![(hex_val(s[pos + 4]) * 16 + hex_val(s[pos + 5])) as u8] + content),
                        end),
                    ),
                    None => None,
                }
            } else {
                None
            }
        } else {
            None
        }
    } else if s[pos] < 0x20 {
        None
    } else {
        match parse_jstring_at(s, pos + 1) {
            Some((content, end)) => Some((seq![s[pos]] + content, end)),
            None => None,
        }
    }
}

/// Prefix the content of a successful string parse.
pub open spec fn prepend_content(prefix: Seq<u8>, r: Option<(Seq<u8>, int)>) -> Option<
    (Seq<u8>, int),
> {
    match r {
        Some((content, end)) => Some((prefix + content, end)),
        None => None,
    }
}

/// The value of one ASCII hex digit.
fn hex_val_of(b: u8) -> (r: u8)
    requires
        is_hex_digit(b),
    ensures
        r == hex_val(b),
{
    if 0x30 <= b && b <= 0x39 {
        b - 0x30
    } else if 0x61 <= b && b <= 0x66 {
        b - 0x57
    } else {
        b - 0x37
    }
}

/// Parse the remainder of a quoted string starting at `pos`; see
/// [`parse_jstring_at`].
#[verifier::loop_isolation(false)]
pub fn parse_jstring(s: &[u8], pos: usize) -> (r: Option<(Vec<u8>, usize)>)
    requires
        pos <= s@.len(),
    ensures
        match r {
            Some((content, end)) => (parse_jstring_at(s@, pos as int) == Some(
                (content@, end as int),
            )) && end <= s@.len(),
            None => parse_jstring_at(s@, pos as int) is None,
        },
{
    let ghost pos0 = pos as int;
    let slen = s.len();
    let mut out: Vec<u8> = Vec::new();
    let mut cur: usize = pos;
    loop
        invariant
            pos0 <= cur as int <= s@.len(),
            slen == s@.len(),
            parse_jstring_at(s@, pos0) == prepend_content(out@, parse_jstring_at(s@, cur as int)),
        decreases s@.len() - cur,
    {
        if cur >= slen {
            return None;
        }
        let b = s[cur];
        if b == 0x22 {
            proof {
                assert(parse_jstring_at(s@, cur as int) == Some(
                    (Seq::<u8>::empty(), cur as int + 1),
                ));
                assert(out@ + Seq::<u8>::empty() =~= out@);
                assert(parse_jstring_at(s@, pos0) == Some((out@, cur as int + 1)));
            }
            return Some((out, cur + 1));
        } else if b == 0x5c {
            if slen - cur < 2 {
                return None;
            }
            let b1 = s[cur + 1];
            if b1 == 0x22 || b1 == 0x5c {
                proof {
                    match parse_jstring_at(s@, cur as int + 2) {
                        Some((content, end)) => {
                            assert(out@ + (seq![s@[cur as int + 1]] + content) =~= out@.push(
                                s@[cur as int + 1],
                            ) + content);
                        },
                        None => {},
                    }
                }
                out.push(b1);
                cur = cur + 2;
            } else if b1 == 0x75 {
                if slen - cur < 6 {
                    return None;
                }
                let b2 = s[cur + 2];
                let b3 = s[cur + 3];
                let b4 = s[cur + 4];
                let b5 = s[cur + 5];
                let h4 = 0x30 <= b4 && b4 <= 0x39 || 0x61 <= b4 && b4 <= 0x66 || 0x41 <= b4 && b4
                    <= 0x46;
                let h5 = 0x30 <= b5 && b5 <= 0x39 || 0x61 <= b5 && b5 <= 0x66 || 0x41 <= b5 && b5
                    <= 0x46;
                if !(b2 == 0x30 && b3 == 0x30 && h4 && h5) {
                    return None;
                }
                let decoded: u8 = hex_val_of(b4) * 16 + hex_val_of(b5);
                proof {
                    match parse_jstring_at(s@, cur as int + 6) {
                        Some((content, end)) => {
                            assert(out@ + (seq![(hex_val(s@[cur as int + 4]) * 16 + hex_val(
                                s@[cur as int + 5],
                            )) as u8] + content) =~= out@.push(decoded) + content);
                        },
                        None => {},
                    }
                }
                out.push(decoded);
                cur = cur + 6;
            } else {
                return None;
            }
        } else if b < 0x20 {
            return None;
        } else {
            proof {
                match parse_jstring_at(s@, cur as int + 1) {
                    Some((content, end)) => {
                        assert(out@ + (seq![s@[cur as int]] + content) =~= out@.push(s@[cur as int])
                            + content);
                    },
                    None => {},
                }
            }
            out.push(b);
            cur = cur + 1;
        }
    }
}

// ------------------------------------------------------- decimal parsing

/// The first position at or after `pos` that does not hold an ASCII digit.
pub open spec fn digits_end(s: Seq<u8>, pos: int) -> int
    decreases s.len() - pos,
{
    if pos < 0 || pos >= s.len() || !is_dec_digit(s[pos]) {
        pos
    } else {
        digits_end(s, pos + 1)
    }
}

/// Shape facts about [`digits_end`]: it stays within the sequence and marks
/// a run of digits.
pub proof fn lemma_digits_end(s: Seq<u8>, pos: int)
    requires
        0 <= pos <= s.len(),
    ensures
        pos <= digits_end(s, pos) <= s.len(),
        forall|j: int| pos <= j < digits_end(s, pos) ==> is_dec_digit(#[trigger] s[j]),
        digits_end(s, pos) < s.len() ==> !is_dec_digit(s[digits_end(s, pos)]),
    decreases s.len() - pos,
{
    if pos < s.len() && is_dec_digit(s[pos]) {
        lemma_digits_end(s, pos + 1);
    }
}

/// Parse a run of digits at `pos` as a machine-sized number: its value and
/// the position after the run. `None` when there is no digit at `pos`, or
/// the run is longer than twenty digits, or its value does not fit.
pub open spec fn parse_usize_at(s: Seq<u8>, pos: int) -> Option<(usize, int)> {
    let end = digits_end(s, pos);
    if pos < 0 || end == pos || end - pos > 20 || dec_val(s.subrange(pos, end)) > usize::MAX as nat
     {
        None
    } else {
        Some((dec_val(s.subrange(pos, end)) as usize, end))
    }
}

/// A digit run bounded left and right parses to its value: when the bytes
/// at `pos` spell the numeral of `n` and the numeral is followed by the
/// end of the sequence or a non-digit, parsing yields exactly `n`.
pub proof fn lemma_parse_dec_exact(s: Seq<u8>, pos: int, n: nat)
    requires
        0 <= pos,
        pos + dec_rep(n).len() <= s.len(),
        s.subrange(pos, pos + dec_rep(n).len()) == dec_rep(n),
        pos + dec_rep(n).len() == s.len() || !is_dec_digit(s[pos + dec_rep(n).len()]),
        n <= usize::MAX,
    ensures
        parse_usize_at(s, pos) == Some((n as usize, pos + dec_rep(n).len())),
{
    let len = dec_rep(n).len() as int;
    lemma_dec_rep_digits(n);
    assert forall|j: int| pos <= j < pos + len implies is_dec_digit(#[trigger] s[j]) by {
        assert(s[j] == s.subrange(pos, pos + len)[j - pos]);
        assert(s.subrange(pos, pos + len)[j - pos] == dec_rep(n)[j - pos]);
    }
    lemma_digits_end_exact(s, pos, pos + len);
    lemma_dec_val_of_rep(n);
    assert(dec_val(s.subrange(pos, pos + len)) == n);
    reveal_with_fuel(pow10, 21);
    lemma_dec_rep_len(n, 20);
}

/// `digits_end` stops exactly at a right boundary: all digits before it,
/// and a non-digit (or the end) at it.
pub proof fn lemma_digits_end_exact(s: Seq<u8>, pos: int, e: int)
    requires
        0 <= pos <= e <= s.len(),
        forall|j: int| pos <= j < e ==> is_dec_digit(#[trigger] s[j]),
        e == s.len() || !is_dec_digit(s[e]),
    ensures
        digits_end(s, pos) == e,
    decreases e - pos,
{
    if pos < e {
        lemma_digits_end_exact(s, pos + 1, e);
    }
}

/// A matching literal is accepted: when the bytes at `pos` spell `lit`,
/// matching succeeds and stops one past it.
pub proof fn lemma_expect_exact(s: Seq<u8>, pos: int, lit: Seq<u8>)
    requires
        0 <= pos,
        pos + lit.len() <= s.len(),
        s.subrange(pos, pos + lit.len()) == lit,
    ensures
        expect_at(s, pos, lit) == Some(pos + lit.len()),
{
}

/// An escaped string followed by its closing quote parses back to exactly
/// the bytes that were escaped.
pub proof fn lemma_parse_escaped_exact(s: Seq<u8>, pos: int, c: Seq<u8>)
    requires
        0 <= pos,
        pos + escape_bytes(c).len() + 1 <= s.len(),
        s.subrange(pos, pos + escape_bytes(c).len()) == escape_bytes(c),
        s[pos + escape_bytes(c).len()] == 0x22,
    ensures
        parse_jstring_at(s, pos) == Some((c, pos + escape_bytes(c).len() + 1)),
    decreases c.len(),
{
    let esc = escape_bytes(c);
    assert forall|j: int| pos <= j < pos + esc.len() implies #[trigger] s[j] == esc[j - pos] by {
        assert(s[j] == s.subrange(pos, pos + esc.len())[j - pos]);
    }
    if c.len() == 0 {
        assert(s[pos] == 0x22);
    } else {
        let b = c[0];
        let head = esc_byte(b);
        let rest = escape_bytes(c.drop_first());
        assert(esc == head + rest);
        assert forall|j: int| 0 <= j < head.len() implies s[pos + j] == head[j] by {
            assert(esc[j] == head[j]);
            assert(s[pos + j] == esc[j]);
        }
        let pos1 = pos + head.len() as int;
        assert(s.subrange(pos1, pos1 + rest.len()) =~= esc.subrange(
            head.len() as int,
            esc.len() as int,
        ));
        assert(esc.subrange(head.len() as int, esc.len() as int) =~= rest);
        assert(s[pos1 + rest.len()] == 0x22);
        lemma_parse_escaped_exact(s, pos1, c.drop_first());
        if b == 0x22 {
            assert(s[pos] == 0x5c && s[pos + 1] == 0x22);
            assert(seq![b] + c.drop_first() =~= c);
        } else if b == 0x5c {
            assert(s[pos] == 0x5c && s[pos + 1] == 0x5c);
            assert(seq![b] + c.drop_first() =~= c);
        } else if b < 0x20 {
            assert(s[pos] == 0x5c && s[pos + 1] == 0x75 && s[pos + 2] == 0x30 && s[pos + 3]
                == 0x30);
            assert(s[pos + 4] == hex_digit(b / 16) && s[pos + 5] == hex_digit(b % 16));
            lemma_hex_digit_val(b / 16);
            lemma_hex_digit_val(b % 16);
            assert(hex_val(s[pos + 4]) * 16 + hex_val(s[pos + 5]) == b);
            assert(seq![(hex_val(s[pos + 4]) * 16 + hex_val(s[pos + 5])) as u8] + c.drop_first()
                =~= c);
        } else {
            assert(s[pos] == b);
            assert(b != 0x22 && b != 0x5c && b >= 0x20);
            assert(seq![b] + c.drop_first() =~= c);
        }
    }
}

/// A produced hex digit is a valid hex digit and reads back to its value.
pub proof fn lemma_hex_digit_val(d: u8)
    requires
        d < 16,
    ensures
        is_hex_digit(hex_digit(d)),
        hex_val(hex_digit(d)) == d,
{
}

/// Parse a run of digits at `pos`; see [`parse_usize_at`].
#[verifier::rlimit(30)]
pub fn parse_usize(s: &[u8], pos: usize) -> (r: Option<(usize, usize)>)
    requires
        pos <= s@.len(),
    ensures
        match r {
            Some((v, end)) => (parse_usize_at(s@, pos as int) == Some((v, end as int))) && end
                <= s@.len(),
            None => parse_usize_at(s@, pos as int) is None,
        },
{
    proof {
        lemma_digits_end(s@, pos as int);
    }
    let slen = s.len();
    let mut end: usize = pos;
    while end < slen && 0x30 <= s[end] && s[end] <= 0x39
        invariant
            pos <= end <= s@.len(),
            slen == s@.len(),
            digits_end(s@, pos as int) == digits_end(s@, end as int),
        decreases s@.len() - end,
    {
        end = end + 1;
    }
    proof {
        assert(digits_end(s@, end as int) == end as int);
    }
    if end == pos || end - pos > 20 {
        return None;
    }
    let ghost run = s@.subrange(pos as int, end as int);
    proof {
        lemma_dec_val_bound(run);
        reveal_with_fuel(pow10, 21);
        assert(pow10(run.len() as nat) <= pow10(20));
    }
    let mut acc: u128 = 0;
    let mut i: usize = pos;
    while i < end
        invariant
            pos <= i <= end <= s@.len(),
            s@.len() <= usize::MAX,
            end - pos <= 20,
            acc == dec_val(s@.subrange(pos as int, i as int)),
            forall|j: int| pos <= j < end ==> is_dec_digit(#[trigger] s@[j]),
        decreases end - i,
    {
        let d: u8 = s[i] - 0x30;
        proof {
            let pre = s@.subrange(pos as int, i as int);
            let cur = s@.subrange(pos as int, i as int + 1);
            assert(cur.drop_last() =~= pre);
            assert(cur.last() == s@[i as int]);
            assert(forall|j: int| 0 <= j < pre.len() ==> is_dec_digit(#[trigger] pre[j]));
            lemma_dec_val_bound(pre);
            reveal_with_fuel(pow10, 21);
            assert(pow10(pre.len() as nat) <= pow10(19));
        }
        acc = acc * 10 + (d as u128);
        i = i + 1;
    }
    proof {
        assert(s@.subrange(pos as int, end as int) == run);
    }
    if acc > (usize::MAX as u128) {
        return None;
    }
    Some((acc as usize, end))
}

} // verus!
