//! The interchange format: a fixed-shape JSON document for a generated
//! `Colors` structure and the `Theme` around it, emitted and parsed by the
//! library itself so that both directions carry exact contracts and the
//! round trip is proved.
//!
//! A color channel is written as a decimal fraction with three digits
//! (`0.500`); the shape and key order are fixed, with no whitespace.

use vstd::prelude::*;

use crate::color::Srgb;
use crate::theme::{Colors, Palette, Theme};

verus! {

/// The pattern occurs in `b` at position `i`; the position after it.
pub open spec fn spec_expect(b: Seq<u8>, i: int, pat: Seq<u8>) -> Option<int> {
    if 0 <= i && i + pat.len() <= b.len() && b.subrange(i, i + pat.len()) == pat {
        Some(i + pat.len())
    } else {
        None
    }
}

/// Checks that `pat` occurs in `buf` at position `i`.
fn expect_seq(buf: &[u8], i: usize, pat: &[u8]) -> (r: Option<usize>)
    ensures
        (match spec_expect(buf@, i as int, pat@) {
            Some(p) => (r matches Some(q) && q == p && p <= buf@.len()),
            None => r is None,
        }),
{
    let n = pat.len();
    if buf.len() < n || i > buf.len() - n {
        return None;
    }
    let end: usize = i + n;
    let mut k: usize = 0;
    while k < n
        invariant
            n == pat@.len(),
            end == i + n,
            i + n <= buf@.len(),
            k <= n,
            forall|j: int| 0 <= j < k ==> buf@[i + j] == pat@[j],
        decreases n - k,
    {
        if buf[i + k] != pat[k] {
            proof {
                let sub = buf@.subrange(i as int, i as int + n);
                assert(sub[k as int] == buf@[i + k]);
                assert(sub != pat@);
            }
            return None;
        }
        k = k + 1;
    }
    proof {
        assert(buf@.subrange(i as int, i as int + n) =~= pat@);
    }
    Some(i + n)
}

/// Checks that the byte `b` stands in `buf` at position `i`.
fn expect_byte(buf: &[u8], i: usize, b: u8) -> (r: Option<usize>)
    ensures
        (match spec_expect(buf@, i as int, seq![b]) {
            Some(p) => (r matches Some(q) && q == p && p <= buf@.len()),
            None => r is None,
        }),
{
    if i < buf.len() && buf[i] == b {
        proof {
            assert(buf@.subrange(i as int, i as int + 1) =~= seq![b]);
        }
        Some(i + 1)
    } else {
        proof {
            if 0 <= i && i + 1 <= buf@.len() {
                let sub = buf@.subrange(i as int, i as int + 1);
                assert(sub[0] == buf@[i as int]);
                assert(sub != seq![b]);
            }
        }
        None
    }
}

/// Appends `pat` to `out`.
fn push_seq(out: &mut Vec<u8>, pat: &[u8])
    ensures
        final(out)@ == old(out)@ + pat@,
{
    let n = pat.len();
    let mut k: usize = 0;
    while k < n
        invariant
            n == pat@.len(),
            k <= n,
            out@ =~= old(out)@ + pat@.subrange(0, k as int),
        decreases n - k,
    {
        out.push(pat[k]);
        k = k + 1;
    }
    proof {
        assert(out@ =~= old(out)@ + pat@);
    }
}

/// Appends one byte to `out`.
fn push_byte(out: &mut Vec<u8>, b: u8)
    ensures
        final(out)@ == old(out)@ + seq![b],
{
    out.push(b);
    proof {
        assert(out@ =~= old(out)@ + seq![b]);
    }
}

/// The bytes of `{"red":`.
pub open spec fn lit_obj_red() -> Seq<u8> {
    seq![123u8, 34u8, 114u8, 101u8, 100u8, 34u8, 58u8]
}

fn arr_obj_red() -> (r: [u8; 7])
    ensures
        r@ == lit_obj_red(),
{
    let a: [u8; 7] = [123u8, 34u8, 114u8, 101u8, 100u8, 34u8, 58u8];
    proof {
        assert(a@ =~= lit_obj_red());
    }
    a
}

/// The bytes of `,"green":`.
pub open spec fn lit_sep_green() -> Seq<u8> {
    seq![44u8, 34u8, 103u8, 114u8, 101u8, 101u8, 110u8, 34u8, 58u8]
}

fn arr_sep_green() -> (r: [u8; 9])
    ensures
        r@ == lit_sep_green(),
{
    let a: [u8; 9] = [44u8, 34u8, 103u8, 114u8, 101u8, 101u8, 110u8, 34u8, 58u8];
    proof {
        assert(a@ =~= lit_sep_green());
    }
    a
}

/// The bytes of `,"blue":`.
pub open spec fn lit_sep_blue() -> Seq<u8> {
    seq![44u8, 34u8, 98u8, 108u8, 117u8, 101u8, 34u8, 58u8]
}

fn arr_sep_blue() -> (r: [u8; 8])
    ensures
        r@ == lit_sep_blue(),
{
    let a: [u8; 8] = [44u8, 34u8, 98u8, 108u8, 117u8, 101u8, 34u8, 58u8];
    proof {
        assert(a@ =~= lit_sep_blue());
    }
    a
}

/// The bytes of `{"black":`.
pub open spec fn lit_obj_black() -> Seq<u8> {
    seq![123u8, 34u8, 98u8, 108u8, 97u8, 99u8, 107u8, 34u8, 58u8]
}

fn arr_obj_black() -> (r: [u8; 9])
    ensures
        r@ == lit_obj_black(),
{
    let a: [u8; 9] = [123u8, 34u8, 98u8, 108u8, 97u8, 99u8, 107u8, 34u8, 58u8];
    proof {
        assert(a@ =~= lit_obj_black());
    }
    a
}

/// The bytes of `,"red":`.
pub open spec fn lit_sep_red() -> Seq<u8> {
    seq![44u8, 34u8, 114u8, 101u8, 100u8, 34u8, 58u8]
}

fn arr_sep_red() -> (r: [u8; 7])
    ensures
        r@ == lit_sep_red(),
{
    let a: [u8; 7] = [44u8, 34u8, 114u8, 101u8, 100u8, 34u8, 58u8];
    proof {
        assert(a@ =~= lit_sep_red());
    }
    a
}

/// The bytes of `,"yellow":`.
pub open spec fn lit_sep_yellow() -> Seq<u8> {
    seq![44u8, 34u8, 121u8, 101u8, 108u8, 108u8, 111u8, 119u8, 34u8, 58u8]
}

fn arr_sep_yellow() -> (r: [u8; 10])
    ensures
        r@ == lit_sep_yellow(),
{
    let a: [u8; 10] = [44u8, 34u8, 121u8, 101u8, 108u8, 108u8, 111u8, 119u8, 34u8, 58u8];
    proof {
        assert(a@ =~= lit_sep_yellow());
    }
    a
}

/// The bytes of `,"purple":`.
pub open spec fn lit_sep_purple() -> Seq<u8> {
    seq![44u8, 34u8, 112u8, 117u8, 114u8, 112u8, 108u8, 101u8, 34u8, 58u8]
}

fn arr_sep_purple() -> (r: [u8; 10])
    ensures
        r@ == lit_sep_purple(),
{
    let a: [u8; 10] = [44u8, 34u8, 112u8, 117u8, 114u8, 112u8, 108u8, 101u8, 34u8, 58u8];
    proof {
        assert(a@ =~= lit_sep_purple());
    }
    a
}

/// The bytes of `,"cyan":`.
pub open spec fn lit_sep_cyan() -> Seq<u8> {
    seq![44u8, 34u8, 99u8, 121u8, 97u8, 110u8, 34u8, 58u8]
}

fn arr_sep_cyan() -> (r: [u8; 8])
    ensures
        r@ == lit_sep_cyan(),
{
    let a: [u8; 8] = [44u8, 34u8, 99u8, 121u8, 97u8, 110u8, 34u8, 58u8];
    proof {
        assert(a@ =~= lit_sep_cyan());
    }
    a
}

/// The bytes of `,"white":`.
pub open spec fn lit_sep_white() -> Seq<u8> {
    seq![44u8, 34u8, 119u8, 104u8, 105u8, 116u8, 101u8, 34u8, 58u8]
}

fn arr_sep_white() -> (r: [u8; 9])
    ensures
        r@ == lit_sep_white(),
{
    let a: [u8; 9] = [44u8, 34u8, 119u8, 104u8, 105u8, 116u8, 101u8, 34u8, 58u8];
    proof {
        assert(a@ =~= lit_sep_white());
    }
    a
}

/// The bytes of `{"palette":`.
pub open spec fn lit_obj_palette() -> Seq<u8> {
    seq![123u8, 34u8, 112u8, 97u8, 108u8, 101u8, 116u8, 116u8, 101u8, 34u8, 58u8]
}

fn arr_obj_palette() -> (r: [u8; 11])
    ensures
        r@ == lit_obj_palette(),
{
    let a: [u8; 11] = [123u8, 34u8, 112u8, 97u8, 108u8, 101u8, 116u8, 116u8, 101u8, 34u8, 58u8];
    proof {
        assert(a@ =~= lit_obj_palette());
    }
    a
}

/// The bytes of `,"accents":[`.
pub open spec fn lit_sep_accents() -> Seq<u8> {
    seq![44u8, 34u8, 97u8, 99u8, 99u8, 101u8, 110u8, 116u8, 115u8, 34u8, 58u8, 91u8]
}

fn arr_sep_accents() -> (r: [u8; 12])
    ensures
        r@ == lit_sep_accents(),
{
    let a: [u8; 12] = [44u8, 34u8, 97u8, 99u8, 99u8, 101u8, 110u8, 116u8, 115u8, 34u8, 58u8, 91u8];
    proof {
        assert(a@ =~= lit_sep_accents());
    }
    a
}

/// The bytes of `,"foreground":`.
pub open spec fn lit_sep_foreground() -> Seq<u8> {
    seq![44u8, 34u8, 102u8, 111u8, 114u8, 101u8, 103u8, 114u8, 111u8, 117u8, 110u8, 100u8, 34u8, 58u8]
}

fn arr_sep_foreground() -> (r: [u8; 14])
    ensures
        r@ == lit_sep_foreground(),
{
    let a: [u8; 14] = [44u8, 34u8, 102u8, 111u8, 114u8, 101u8, 103u8, 114u8, 111u8, 117u8, 110u8, 100u8, 34u8, 58u8];
    proof {
        assert(a@ =~= lit_sep_foreground());
    }
    a
}

/// The bytes of `,"background":`.
pub open spec fn lit_sep_background() -> Seq<u8> {
    seq![44u8, 34u8, 98u8, 97u8, 99u8, 107u8, 103u8, 114u8, 111u8, 117u8, 110u8, 100u8, 34u8, 58u8]
}

fn arr_sep_background() -> (r: [u8; 14])
    ensures
        r@ == lit_sep_background(),
{
    let a: [u8; 14] = [44u8, 34u8, 98u8, 97u8, 99u8, 107u8, 103u8, 114u8, 111u8, 117u8, 110u8, 100u8, 34u8, 58u8];
    proof {
        assert(a@ =~= lit_sep_background());
    }
    a
}

/// The bytes of `{"wallpaper":`.
pub open spec fn lit_obj_wallpaper() -> Seq<u8> {
    seq![123u8, 34u8, 119u8, 97u8, 108u8, 108u8, 112u8, 97u8, 112u8, 101u8, 114u8, 34u8, 58u8]
}

fn arr_obj_wallpaper() -> (r: [u8; 13])
    ensures
        r@ == lit_obj_wallpaper(),
{
    let a: [u8; 13] = [123u8, 34u8, 119u8, 97u8, 108u8, 108u8, 112u8, 97u8, 112u8, 101u8, 114u8, 34u8, 58u8];
    proof {
        assert(a@ =~= lit_obj_wallpaper());
    }
    a
}

/// The bytes of the word `null`.
pub open spec fn lit_null() -> Seq<u8> {
    seq![110u8, 117u8, 108u8, 108u8]
}

fn arr_null() -> (r: [u8; 4])
    ensures
        r@ == lit_null(),
{
    let a: [u8; 4] = [110u8, 117u8, 108u8, 108u8];
    proof {
        assert(a@ =~= lit_null());
    }
    a
}

/// The bytes of `,"colors":`.
pub open spec fn lit_sep_colors() -> Seq<u8> {
    seq![44u8, 34u8, 99u8, 111u8, 108u8, 111u8, 114u8, 115u8, 34u8, 58u8]
}

fn arr_sep_colors() -> (r: [u8; 10])
    ensures
        r@ == lit_sep_colors(),
{
    let a: [u8; 10] = [44u8, 34u8, 99u8, 111u8, 108u8, 111u8, 114u8, 115u8, 34u8, 58u8];
    proof {
        assert(a@ =~= lit_sep_colors());
    }
    a
}

/// A channel value as five bytes: one integer digit, a point, and three
/// fraction digits, the value being thousandths.
pub open spec fn spec_emit_channel(v: i64) -> Seq<u8> {
    seq![
        (48 + v / 1000) as u8,
        46u8,
        (48 + (v / 100) % 10) as u8,
        (48 + (v / 10) % 10) as u8,
        (48 + v % 10) as u8,
    ]
}

/// Writes one channel value.
fn push_channel(out: &mut Vec<u8>, v: i64)
    requires
        0 <= v <= 1000,
    ensures
        final(out)@ == old(out)@ + spec_emit_channel(v),
{
    out.push((48 + v / 1000) as u8);
    out.push(46);
    out.push((48 + (v / 100) % 10) as u8);
    out.push((48 + (v / 10) % 10) as u8);
    out.push((48 + v % 10) as u8);
    proof {
        assert(out@ =~= old(out)@ + spec_emit_channel(v));
    }
}

pub open spec fn is_digit(b: u8) -> bool {
    48 <= b <= 57
}

/// Reads one channel value: a digit, a point and three digits, no more than
/// one whole unit.
pub open spec fn spec_parse_channel(b: Seq<u8>, i: int) -> Option<(i64, int)> {
    if 0 <= i && i + 5 <= b.len() && is_digit(b[i]) && b[i + 1] == 46 && is_digit(b[i + 2])
        && is_digit(b[i + 3]) && is_digit(b[i + 4]) {
        let v = (b[i] - 48) * 1000 + (b[i + 2] - 48) * 100 + (b[i + 3] - 48) * 10 + (b[i + 4]
            - 48);
        if v <= 1000 {
            Some((v as i64, i + 5))
        } else {
            None
        }
    } else {
        None
    }
}

fn parse_channel(buf: &[u8], i: usize) -> (r: Option<(i64, usize)>)
    ensures
        (match spec_parse_channel(buf@, i as int) {
            Some(p) => (r matches Some(q) && q.0 == p.0 && q.1 == p.1 && p.1 <= buf@.len()),
            None => r is None,
        }),
{
    if buf.len() < 5 || i > buf.len() - 5 {
        return None;
    }
    let b0 = buf[i];
    let b1 = buf[i + 1];
    let b2 = buf[i + 2];
    let b3 = buf[i + 3];
    let b4 = buf[i + 4];
    if !(48 <= b0 && b0 <= 57 && b1 == 46 && 48 <= b2 && b2 <= 57 && 48 <= b3 && b3 <= 57 && 48
        <= b4 && b4 <= 57) {
        return None;
    }
    let v: i64 = ((b0 - 48) as i64) * 1000 + ((b2 - 48) as i64) * 100 + ((b3 - 48) as i64) * 10
        + ((b4 - 48) as i64);
    if v > 1000 {
        return None;
    }
    Some((v, i + 5))
}

/// The decimal digits of a channel value recombine to the value.
proof fn lemma_channel_digits(v: int)
    requires
        0 <= v <= 1000,
    ensures
        (v / 1000) * 1000 + ((v / 100) % 10) * 100 + ((v / 10) % 10) * 10 + v % 10 == v,
        0 <= v / 1000 <= 1,
        0 <= (v / 100) % 10 <= 9,
        0 <= (v / 10) % 10 <= 9,
        0 <= v % 10 <= 9,
{
    vstd::arithmetic::div_mod::lemma_fundamental_div_mod(v, 10);
    vstd::arithmetic::div_mod::lemma_fundamental_div_mod(v / 10, 10);
    vstd::arithmetic::div_mod::lemma_fundamental_div_mod(v / 100, 10);
    vstd::arithmetic::div_mod::lemma_mod_bound(v, 10);
    vstd::arithmetic::div_mod::lemma_mod_bound(v / 10, 10);
    vstd::arithmetic::div_mod::lemma_mod_bound(v / 100, 10);
    assert((v / 10) / 10 == v / 100) by {
        vstd::arithmetic::div_mod::lemma_div_denominator(v, 10, 10);
    }
    assert((v / 100) / 10 == v / 1000) by {
        vstd::arithmetic::div_mod::lemma_div_denominator(v, 100, 10);
    }
    assert(v / 1000 <= 1 && v / 1000 >= 0) by {
        vstd::arithmetic::div_mod::lemma_div_pos_is_pos(v, 1000);
        vstd::arithmetic::div_mod::lemma_div_is_ordered(v, 2000, 1000);
        assert(2000int / 1000int == 2);
    }
    assert((v / 100) % 10 == v / 100 - 10 * (v / 1000));
}

/// Parsing the emission of a channel value gives the value back.
proof fn lemma_parse_channel_of_emit(b: Seq<u8>, i: int, v: i64)
    requires
        0 <= v <= 1000,
        0 <= i,
        i + 5 <= b.len(),
        b.subrange(i, i + 5) == spec_emit_channel(v),
    ensures
        spec_parse_channel(b, i) == Some((v, i + 5)),
{
    lemma_channel_digits(v as int);
    let e = spec_emit_channel(v);
    assert(b[i] == e[0] && b[i + 1] == e[1] && b[i + 2] == e[2] && b[i + 3] == e[3] && b[i + 4]
        == e[4]) by {
        assert(b.subrange(i, i + 5)[0] == b[i]);
        assert(b.subrange(i, i + 5)[1] == b[i + 1]);
        assert(b.subrange(i, i + 5)[2] == b[i + 2]);
        assert(b.subrange(i, i + 5)[3] == b[i + 3]);
        assert(b.subrange(i, i + 5)[4] == b[i + 4]);
    }
}

/// An sRGB color as an object of its three channels.
#[verifier::opaque]
pub open spec fn spec_emit_srgb(c: Srgb) -> Seq<u8> {
    lit_obj_red() + spec_emit_channel(c.red) + lit_sep_green() + spec_emit_channel(c.green)
        + lit_sep_blue() + spec_emit_channel(c.blue) + seq![125u8]
}

/// Writes one color object.
fn push_srgb(out: &mut Vec<u8>, c: &Srgb)
    requires
        c.wf(),
    ensures
        final(out)@ == old(out)@ + spec_emit_srgb(*c),
{
    proof {
        reveal(spec_emit_srgb);
    }
    let a0 = arr_obj_red();
    push_seq(out, a0.as_slice());
    push_channel(out, c.red);
    let a1 = arr_sep_green();
    push_seq(out, a1.as_slice());
    push_channel(out, c.green);
    let a2 = arr_sep_blue();
    push_seq(out, a2.as_slice());
    push_channel(out, c.blue);
    push_byte(out, 125);
    proof {
        assert(out@ =~= old(out)@ + spec_emit_srgb(*c));
    }
}

/// Reads one color object.
#[verifier::opaque]
pub open spec fn spec_parse_srgb(b: Seq<u8>, i: int) -> Option<(Srgb, int)> {
    match spec_expect(b, i, lit_obj_red()) {
        None => None,
        Some(i1) => match spec_parse_channel(b, i1) {
            None => None,
            Some((red, i2)) => match spec_expect(b, i2, lit_sep_green()) {
                None => None,
                Some(i3) => match spec_parse_channel(b, i3) {
                    None => None,
                    Some((green, i4)) => match spec_expect(b, i4, lit_sep_blue()) {
                        None => None,
                        Some(i5) => match spec_parse_channel(b, i5) {
                            None => None,
                            Some((blue, i6)) => match spec_expect(b, i6, seq![125u8]) {
                                None => None,
                                Some(i7) => Some((Srgb { red, green, blue }, i7)),
                            },
                        },
                    },
                },
            },
        },
    }
}

fn parse_srgb(buf: &[u8], i: usize) -> (r: Option<(Srgb, usize)>)
    ensures
        (match spec_parse_srgb(buf@, i as int) {
            Some(p) => (r matches Some(q) && q.0 == p.0 && q.1 == p.1 && p.1 <= buf@.len()),
            None => r is None,
        }),
{
    proof {
        reveal(spec_parse_srgb);
    }
    let n = buf.len();
    proof {
        assert(buf@.len() == n);
    }
    let a0 = arr_obj_red();
    let i1 = match expect_seq(buf, i, a0.as_slice()) {
        Some(x) => x,
        None => {
            return None;
        },
    };
    let (red, i2) = match parse_channel(buf, i1) {
        Some(x) => x,
        None => {
            return None;
        },
    };
    let a1 = arr_sep_green();
    let i3 = match expect_seq(buf, i2, a1.as_slice()) {
        Some(x) => x,
        None => {
            return None;
        },
    };
    let (green, i4) = match parse_channel(buf, i3) {
        Some(x) => x,
        None => {
            return None;
        },
    };
    let a2 = arr_sep_blue();
    let i5 = match expect_seq(buf, i4, a2.as_slice()) {
        Some(x) => x,
        None => {
            return None;
        },
    };
    let (blue, i6) = match parse_channel(buf, i5) {
        Some(x) => x,
        None => {
            return None;
        },
    };
    let i7 = match expect_byte(buf, i6, 125) {
        Some(x) => x,
        None => {
            return None;
        },
    };
    Some((Srgb { red, green, blue }, i7))
}

/// A window into `b` that equals `e` makes every sub-window equal the
/// matching slice of `e`.
proof fn lemma_subrange_shift(b: Seq<u8>, i: int, e: Seq<u8>, a: int, c: int)
    requires
        0 <= i,
        i + e.len() <= b.len(),
        b.subrange(i, i + e.len()) == e,
        0 <= a <= c <= e.len(),
    ensures
        b.subrange(i + a, i + c) == e.subrange(a, c),
{
    assert forall|m: int| 0 <= m < c - a implies b.subrange(i + a, i + c)[m] == e.subrange(
        a,
        c,
    )[m] by {
        assert(b.subrange(i + a, i + c)[m] == b[i + a + m]);
        assert(b.subrange(i, i + e.len())[a + m] == b[i + a + m]);
        assert(e.subrange(a, c)[m] == e[a + m]);
    }
    assert(b.subrange(i + a, i + c) =~= e.subrange(a, c));
}

/// A window that equals a concatenation splits into the two windows of its
/// parts.
proof fn lemma_split_concat(b: Seq<u8>, i: int, x: Seq<u8>, y: Seq<u8>)
    requires
        0 <= i,
        i + x.len() + y.len() <= b.len(),
        b.subrange(i, i + x.len() + y.len()) == x + y,
    ensures
        b.subrange(i, i + x.len()) == x,
        b.subrange(i + x.len(), i + x.len() + y.len()) == y,
{
    lemma_subrange_shift(b, i, x + y, 0, x.len() as int);
    assert((x + y).subrange(0, x.len() as int) =~= x);
    lemma_subrange_shift(b, i, x + y, x.len() as int, (x.len() + y.len()) as int);
    assert((x + y).subrange(x.len() as int, (x.len() + y.len()) as int) =~= y);
}

/// Parsing the emission of a color object gives the color back.
proof fn lemma_parse_srgb_of_emit(b: Seq<u8>, i: int, c: Srgb)
    requires
        c.wf(),
        0 <= i,
        i + spec_emit_srgb(c).len() <= b.len(),
        b.subrange(i, i + spec_emit_srgb(c).len()) == spec_emit_srgb(c),
    ensures
        spec_emit_srgb(c).len() == 40,
        spec_parse_srgb(b, i) == Some((c, i + 40)),
{
    reveal(spec_emit_srgb);
    reveal(spec_parse_srgb);
    let e = spec_emit_srgb(c);
    assert(e.len() == 40);
    lemma_subrange_shift(b, i, e, 0, 7);
    assert(e.subrange(0, 7) =~= lit_obj_red());
    lemma_subrange_shift(b, i, e, 7, 12);
    assert(e.subrange(7, 12) =~= spec_emit_channel(c.red));
    lemma_parse_channel_of_emit(b, i + 7, c.red);
    lemma_subrange_shift(b, i, e, 12, 21);
    assert(e.subrange(12, 21) =~= lit_sep_green());
    lemma_subrange_shift(b, i, e, 21, 26);
    assert(e.subrange(21, 26) =~= spec_emit_channel(c.green));
    lemma_parse_channel_of_emit(b, i + 21, c.green);
    lemma_subrange_shift(b, i, e, 26, 34);
    assert(e.subrange(26, 34) =~= lit_sep_blue());
    lemma_subrange_shift(b, i, e, 34, 39);
    assert(e.subrange(34, 39) =~= spec_emit_channel(c.blue));
    lemma_parse_channel_of_emit(b, i + 34, c.blue);
    lemma_subrange_shift(b, i, e, 39, 40);
    assert(e.subrange(39, 40) =~= seq![125u8]);
    assert(spec_parse_srgb(b, i) == Some((Srgb { red: c.red, green: c.green, blue: c.blue }, i
        + 40)));
}

/// A key pattern followed by one color object.
pub open spec fn spec_parse_slot(b: Seq<u8>, i: int, pat: Seq<u8>) -> Option<(Srgb, int)> {
    match spec_expect(b, i, pat) {
        None => None,
        Some(j) => spec_parse_srgb(b, j),
    }
}

fn parse_slot(buf: &[u8], i: usize, pat: &[u8]) -> (r: Option<(Srgb, usize)>)
    ensures
        (match spec_parse_slot(buf@, i as int, pat@) {
            Some(p) => (r matches Some(q) && q.0 == p.0 && q.1 == p.1 && p.1 <= buf@.len()),
            None => r is None,
        }),
{
    let n = buf.len();
    proof { assert(buf@.len() == n); }
    let j = match expect_seq(buf, i, pat) { Some(x) => x, None => { return None; } };
    parse_srgb(buf, j)
}

/// Parsing a key and the emission of a color gives the color back.
proof fn lemma_parse_slot_of_emit(b: Seq<u8>, i: int, pat: Seq<u8>, c: Srgb)
    requires
        c.wf(),
        0 <= i,
        i + pat.len() + 40 <= b.len(),
        b.subrange(i, i + pat.len()) == pat,
        b.subrange(i + pat.len(), i + pat.len() + 40) == spec_emit_srgb(c),
    ensures
        spec_parse_slot(b, i, pat) == Some((c, i + pat.len() + 40)),
{
    assert(spec_expect(b, i, pat) == Some(i + pat.len()));
    lemma_parse_srgb_of_emit(b, i + pat.len(), c);
}

/// An emitted color object is forty bytes.
proof fn lemma_emit_srgb_len(c: Srgb)
    ensures
        spec_emit_srgb(c).len() == 40,
{
    reveal(spec_emit_srgb);
}

/// All eight palette colors within the normalized channel range.
pub open spec fn spec_palette_wf(p: Palette<Srgb>) -> bool {
    &&& p.black.wf()
    &&& p.red.wf()
    &&& p.green.wf()
    &&& p.yellow.wf()
    &&& p.blue.wf()
    &&& p.purple.wf()
    &&& p.cyan.wf()
    &&& p.white.wf()
}

/// The palette as an object of its eight named colors.
#[verifier::opaque]
pub open spec fn spec_emit_palette(p: Palette<Srgb>) -> Seq<u8> {
    lit_obj_black() + spec_emit_srgb(p.black) + lit_sep_red() + spec_emit_srgb(p.red) + lit_sep_green() + spec_emit_srgb(p.green) + lit_sep_yellow() + spec_emit_srgb(p.yellow) + lit_sep_blue() + spec_emit_srgb(p.blue) + lit_sep_purple() + spec_emit_srgb(p.purple) + lit_sep_cyan() + spec_emit_srgb(p.cyan) + lit_sep_white() + spec_emit_srgb(p.white) + seq![125u8]
}

/// Writes the palette object.
fn push_palette(out: &mut Vec<u8>, p: &Palette<Srgb>)
    requires
        spec_palette_wf(*p),
    ensures
        final(out)@ == old(out)@ + spec_emit_palette(*p),
{
    proof {
        reveal(spec_emit_palette);
    }
    let a_black = arr_obj_black();
    push_seq(out, a_black.as_slice());
    push_srgb(out, &p.black);
    let a_red = arr_sep_red();
    push_seq(out, a_red.as_slice());
    push_srgb(out, &p.red);
    let a_green = arr_sep_green();
    push_seq(out, a_green.as_slice());
    push_srgb(out, &p.green);
    let a_yellow = arr_sep_yellow();
    push_seq(out, a_yellow.as_slice());
    push_srgb(out, &p.yellow);
    let a_blue = arr_sep_blue();
    push_seq(out, a_blue.as_slice());
    push_srgb(out, &p.blue);
    let a_purple = arr_sep_purple();
    push_seq(out, a_purple.as_slice());
    push_srgb(out, &p.purple);
    let a_cyan = arr_sep_cyan();
    push_seq(out, a_cyan.as_slice());
    push_srgb(out, &p.cyan);
    let a_white = arr_sep_white();
    push_seq(out, a_white.as_slice());
    push_srgb(out, &p.white);
    push_byte(out, 125);
    proof {
        assert(out@ =~= old(out)@ + spec_emit_palette(*p));
    }
}

/// Reads the palette object.
#[verifier::opaque]
pub open spec fn spec_parse_palette(b: Seq<u8>, i: int) -> Option<(Palette<Srgb>, int)> {
    match spec_parse_slot(b, i, lit_obj_black()) {
        None => None,
        Some((v_black, j_black)) => match spec_parse_slot(b, j_black, lit_sep_red()) {
        None => None,
        Some((v_red, j_red)) => match spec_parse_slot(b, j_red, lit_sep_green()) {
        None => None,
        Some((v_green, j_green)) => match spec_parse_slot(b, j_green, lit_sep_yellow()) {
        None => None,
        Some((v_yellow, j_yellow)) => match spec_parse_slot(b, j_yellow, lit_sep_blue()) {
        None => None,
        Some((v_blue, j_blue)) => match spec_parse_slot(b, j_blue, lit_sep_purple()) {
        None => None,
        Some((v_purple, j_purple)) => match spec_parse_slot(b, j_purple, lit_sep_cyan()) {
        None => None,
        Some((v_cyan, j_cyan)) => match spec_parse_slot(b, j_cyan, lit_sep_white()) {
        None => None,
        Some((v_white, j_white)) => match spec_expect(b, j_white, seq![125u8]) {
        None => None,
        Some(jz) => Some((Palette { black: v_black, red: v_red, green: v_green, yellow: v_yellow, blue: v_blue, purple: v_purple, cyan: v_cyan, white: v_white }, jz)),
    },
    },
    },
    },
    },
    },
    },
    },
    }
}

#[verifier::rlimit(100)]
fn parse_palette(buf: &[u8], i: usize) -> (r: Option<(Palette<Srgb>, usize)>)
    ensures
        (match spec_parse_palette(buf@, i as int) {
            Some(p) => (r matches Some(q) && q.0 == p.0 && q.1 == p.1 && p.1 <= buf@.len()),
            None => r is None,
        }),
{
    proof {
        reveal(spec_parse_palette);
    }
    let n = buf.len();
    proof { assert(buf@.len() == n); }
    let a_black = arr_obj_black();
    let (v_black, j_black) = match parse_slot(buf, i, a_black.as_slice()) { Some(x) => x, None => { return None; } };
    let a_red = arr_sep_red();
    let (v_red, j_red) = match parse_slot(buf, j_black, a_red.as_slice()) { Some(x) => x, None => { return None; } };
    let a_green = arr_sep_green();
    let (v_green, j_green) = match parse_slot(buf, j_red, a_green.as_slice()) { Some(x) => x, None => { return None; } };
    let a_yellow = arr_sep_yellow();
    let (v_yellow, j_yellow) = match parse_slot(buf, j_green, a_yellow.as_slice()) { Some(x) => x, None => { return None; } };
    let a_blue = arr_sep_blue();
    let (v_blue, j_blue) = match parse_slot(buf, j_yellow, a_blue.as_slice()) { Some(x) => x, None => { return None; } };
    let a_purple = arr_sep_purple();
    let (v_purple, j_purple) = match parse_slot(buf, j_blue, a_purple.as_slice()) { Some(x) => x, None => { return None; } };
    let a_cyan = arr_sep_cyan();
    let (v_cyan, j_cyan) = match parse_slot(buf, j_purple, a_cyan.as_slice()) { Some(x) => x, None => { return None; } };
    let a_white = arr_sep_white();
    let (v_white, j_white) = match parse_slot(buf, j_cyan, a_white.as_slice()) { Some(x) => x, None => { return None; } };
    let jz = match expect_byte(buf, j_white, 125) { Some(x) => x, None => { return None; } };
    let pal = Palette {
        black: v_black,
        red: v_red,
        green: v_green,
        yellow: v_yellow,
        blue: v_blue,
        purple: v_purple,
        cyan: v_cyan,
        white: v_white,
    };
    proof {
        reveal(spec_parse_palette);
        assert(spec_parse_palette(buf@, i as int) == Some((pal, jz as int)));
    }
    Some((pal, jz))
}

/// The pieces of an emitted palette, each at its place in the window.
#[verifier::rlimit(100)]
proof fn lemma_palette_pieces(b: Seq<u8>, i: int, p: Palette<Srgb>)
    requires
        0 <= i,
        i + spec_emit_palette(p).len() <= b.len(),
        b.subrange(i, i + spec_emit_palette(p).len()) == spec_emit_palette(p),
    ensures
        spec_emit_palette(p).len() == 391,
        b.subrange(i + 0, i + 9) == lit_obj_black(),
        b.subrange(i + 9, i + 49) == spec_emit_srgb(p.black),
        b.subrange(i + 49, i + 56) == lit_sep_red(),
        b.subrange(i + 56, i + 96) == spec_emit_srgb(p.red),
        b.subrange(i + 96, i + 105) == lit_sep_green(),
        b.subrange(i + 105, i + 145) == spec_emit_srgb(p.green),
        b.subrange(i + 145, i + 155) == lit_sep_yellow(),
        b.subrange(i + 155, i + 195) == spec_emit_srgb(p.yellow),
        b.subrange(i + 195, i + 203) == lit_sep_blue(),
        b.subrange(i + 203, i + 243) == spec_emit_srgb(p.blue),
        b.subrange(i + 243, i + 253) == lit_sep_purple(),
        b.subrange(i + 253, i + 293) == spec_emit_srgb(p.purple),
        b.subrange(i + 293, i + 301) == lit_sep_cyan(),
        b.subrange(i + 301, i + 341) == spec_emit_srgb(p.cyan),
        b.subrange(i + 341, i + 350) == lit_sep_white(),
        b.subrange(i + 350, i + 390) == spec_emit_srgb(p.white),
        b.subrange(i + 390, i + 391) == seq![125u8],
{
    reveal(spec_emit_palette);
    lemma_emit_srgb_len(p.black);
    lemma_emit_srgb_len(p.red);
    lemma_emit_srgb_len(p.green);
    lemma_emit_srgb_len(p.yellow);
    lemma_emit_srgb_len(p.blue);
    lemma_emit_srgb_len(p.purple);
    lemma_emit_srgb_len(p.cyan);
    lemma_emit_srgb_len(p.white);
    let e = spec_emit_palette(p);
    let t0 = lit_obj_black();
    let t1 = spec_emit_srgb(p.black);
    let t2 = lit_sep_red();
    let t3 = spec_emit_srgb(p.red);
    let t4 = lit_sep_green();
    let t5 = spec_emit_srgb(p.green);
    let t6 = lit_sep_yellow();
    let t7 = spec_emit_srgb(p.yellow);
    let t8 = lit_sep_blue();
    let t9 = spec_emit_srgb(p.blue);
    let t10 = lit_sep_purple();
    let t11 = spec_emit_srgb(p.purple);
    let t12 = lit_sep_cyan();
    let t13 = spec_emit_srgb(p.cyan);
    let t14 = lit_sep_white();
    let t15 = spec_emit_srgb(p.white);
    let t16 = seq![125u8];
    let c0 = t0;
    let c1 = c0 + t1;
    let c2 = c1 + t2;
    let c3 = c2 + t3;
    let c4 = c3 + t4;
    let c5 = c4 + t5;
    let c6 = c5 + t6;
    let c7 = c6 + t7;
    let c8 = c7 + t8;
    let c9 = c8 + t9;
    let c10 = c9 + t10;
    let c11 = c10 + t11;
    let c12 = c11 + t12;
    let c13 = c12 + t13;
    let c14 = c13 + t14;
    let c15 = c14 + t15;
    let c16 = c15 + t16;
    assert(e == c16);
    assert(c0.len() == 9);
    assert(c1.len() == 49);
    assert(c2.len() == 56);
    assert(c3.len() == 96);
    assert(c4.len() == 105);
    assert(c5.len() == 145);
    assert(c6.len() == 155);
    assert(c7.len() == 195);
    assert(c8.len() == 203);
    assert(c9.len() == 243);
    assert(c10.len() == 253);
    assert(c11.len() == 293);
    assert(c12.len() == 301);
    assert(c13.len() == 341);
    assert(c14.len() == 350);
    assert(c15.len() == 390);
    assert(c16.len() == 391);
    lemma_split_concat(b, i, c15, t16);
    lemma_split_concat(b, i, c14, t15);
    lemma_split_concat(b, i, c13, t14);
    lemma_split_concat(b, i, c12, t13);
    lemma_split_concat(b, i, c11, t12);
    lemma_split_concat(b, i, c10, t11);
    lemma_split_concat(b, i, c9, t10);
    lemma_split_concat(b, i, c8, t9);
    lemma_split_concat(b, i, c7, t8);
    lemma_split_concat(b, i, c6, t7);
    lemma_split_concat(b, i, c5, t6);
    lemma_split_concat(b, i, c4, t5);
    lemma_split_concat(b, i, c3, t4);
    lemma_split_concat(b, i, c2, t3);
    lemma_split_concat(b, i, c1, t2);
    lemma_split_concat(b, i, c0, t1);
}

/// Parsing the emission of a palette gives the palette back.
#[verifier::rlimit(100)]
proof fn lemma_parse_palette_of_emit(b: Seq<u8>, i: int, p: Palette<Srgb>)
    requires
        spec_palette_wf(p),
        0 <= i,
        i + spec_emit_palette(p).len() <= b.len(),
        b.subrange(i, i + spec_emit_palette(p).len()) == spec_emit_palette(p),
    ensures
        spec_emit_palette(p).len() == 391,
        spec_parse_palette(b, i) == Some((p, i + 391)),
{
    reveal(spec_parse_palette);
    lemma_palette_pieces(b, i, p);
    lemma_parse_slot_of_emit(b, i + 0, lit_obj_black(), p.black);
    lemma_parse_slot_of_emit(b, i + 49, lit_sep_red(), p.red);
    lemma_parse_slot_of_emit(b, i + 96, lit_sep_green(), p.green);
    lemma_parse_slot_of_emit(b, i + 145, lit_sep_yellow(), p.yellow);
    lemma_parse_slot_of_emit(b, i + 195, lit_sep_blue(), p.blue);
    lemma_parse_slot_of_emit(b, i + 243, lit_sep_purple(), p.purple);
    lemma_parse_slot_of_emit(b, i + 293, lit_sep_cyan(), p.cyan);
    lemma_parse_slot_of_emit(b, i + 341, lit_sep_white(), p.white);
    assert(spec_parse_palette(b, i) == Some((Palette { black: p.black, red: p.red, green: p.green, yellow: p.yellow, blue: p.blue, purple: p.purple, cyan: p.cyan, white: p.white }, i + 391)));
}

/// An emitted palette object is three hundred ninety-one bytes.
proof fn lemma_emit_palette_len(p: Palette<Srgb>)
    ensures
        spec_emit_palette(p).len() == 391,
{
    reveal(spec_emit_palette);
    lemma_emit_srgb_len(p.black);
    lemma_emit_srgb_len(p.red);
    lemma_emit_srgb_len(p.green);
    lemma_emit_srgb_len(p.yellow);
    lemma_emit_srgb_len(p.blue);
    lemma_emit_srgb_len(p.purple);
    lemma_emit_srgb_len(p.cyan);
    lemma_emit_srgb_len(p.white);
}

/// A generated color set fit for the interchange format: eight palette
/// colors, exactly six accents, and the foreground and background, all with
/// channels in the normalized range.
pub open spec fn spec_colors_wf(c: Colors<Srgb>) -> bool {
    &&& spec_palette_wf(c.palette)
    &&& c.accents@.len() == 6
    &&& forall|k: int| 0 <= k < 6 ==> (#[trigger] c.accents@[k]).wf()
    &&& c.foreground.wf()
    &&& c.background.wf()
}

/// The full color set as one JSON object.
#[verifier::opaque]
pub open spec fn spec_emit_colors(c: Colors<Srgb>) -> Seq<u8> {
    lit_obj_palette() + spec_emit_palette(c.palette) + lit_sep_accents() + spec_emit_srgb(c.accents@[0]) + seq![44u8] + spec_emit_srgb(c.accents@[1]) + seq![44u8] + spec_emit_srgb(c.accents@[2]) + seq![44u8] + spec_emit_srgb(c.accents@[3]) + seq![44u8] + spec_emit_srgb(c.accents@[4]) + seq![44u8] + spec_emit_srgb(c.accents@[5]) + seq![93u8] + lit_sep_foreground() + spec_emit_srgb(c.foreground) + lit_sep_background() + spec_emit_srgb(c.background) + seq![125u8]
}

/// Writes the color set.
fn push_colors(out: &mut Vec<u8>, c: &Colors<Srgb>)
    requires
        spec_colors_wf(*c),
    ensures
        final(out)@ == old(out)@ + spec_emit_colors(*c),
{
    proof {
        reveal(spec_emit_colors);
    }
    let a0 = arr_obj_palette();
    push_seq(out, a0.as_slice());
    push_palette(out, &c.palette);
    let a1 = arr_sep_accents();
    push_seq(out, a1.as_slice());
    push_srgb(out, &c.accents[0]);
    push_byte(out, 44);
    push_srgb(out, &c.accents[1]);
    push_byte(out, 44);
    push_srgb(out, &c.accents[2]);
    push_byte(out, 44);
    push_srgb(out, &c.accents[3]);
    push_byte(out, 44);
    push_srgb(out, &c.accents[4]);
    push_byte(out, 44);
    push_srgb(out, &c.accents[5]);
    push_byte(out, 93);
    let a2 = arr_sep_foreground();
    push_seq(out, a2.as_slice());
    push_srgb(out, &c.foreground);
    let a3 = arr_sep_background();
    push_seq(out, a3.as_slice());
    push_srgb(out, &c.background);
    push_byte(out, 125);
    proof {
        assert(out@ =~= old(out)@ + spec_emit_colors(*c));
    }
}

/// A comma followed by one color object.
pub open spec fn spec_parse_csrgb(b: Seq<u8>, i: int) -> Option<(Srgb, int)> {
    match spec_expect(b, i, seq![44u8]) {
        None => None,
        Some(j) => spec_parse_srgb(b, j),
    }
}

fn parse_csrgb(buf: &[u8], i: usize) -> (r: Option<(Srgb, usize)>)
    ensures
        (match spec_parse_csrgb(buf@, i as int) {
            Some(p) => (r matches Some(q) && q.0 == p.0 && q.1 == p.1 && p.1 <= buf@.len()),
            None => r is None,
        }),
{
    let n = buf.len();
    proof {
        assert(buf@.len() == n);
    }
    let j = match expect_byte(buf, i, 44) { Some(x) => x, None => { return None; } };
    parse_srgb(buf, j)
}

/// Parsing a comma and the emission of a color gives the color back.
proof fn lemma_parse_csrgb_of_emit(b: Seq<u8>, i: int, c: Srgb)
    requires
        c.wf(),
        0 <= i,
        i + 41 <= b.len(),
        b.subrange(i, i + 1) == seq![44u8],
        b.subrange(i + 1, i + 41) == spec_emit_srgb(c),
    ensures
        spec_parse_csrgb(b, i) == Some((c, i + 41)),
{
    assert(spec_expect(b, i, seq![44u8]) == Some(i + 1));
    lemma_parse_srgb_of_emit(b, i + 1, c);
}

/// Reads the full color set.
#[verifier::opaque]
pub open spec fn spec_parse_colors(b: Seq<u8>, i: int) -> Option<(
    Palette<Srgb>,
    Seq<Srgb>,
    Srgb,
    Srgb,
    int,
)> {
    match spec_expect(b, i, lit_obj_palette()) {
        None => None,
        Some(j0) => match spec_parse_palette(b, j0) {
        None => None,
        Some((pal, j1)) => match spec_expect(b, j1, lit_sep_accents()) {
        None => None,
        Some(j2) => match spec_parse_srgb(b, j2) {
        None => None,
        Some((a0, j3)) => match spec_parse_csrgb(b, j3) {
        None => None,
        Some((a1, j4)) => match spec_parse_csrgb(b, j4) {
        None => None,
        Some((a2, j5)) => match spec_parse_csrgb(b, j5) {
        None => None,
        Some((a3, j6)) => match spec_parse_csrgb(b, j6) {
        None => None,
        Some((a4, j7)) => match spec_parse_csrgb(b, j7) {
        None => None,
        Some((a5, j8)) => match spec_expect(b, j8, seq![93u8]) {
        None => None,
        Some(j9) => match spec_parse_slot(b, j9, lit_sep_foreground()) {
        None => None,
        Some((fg, j10)) => match spec_parse_slot(b, j10, lit_sep_background()) {
        None => None,
        Some((bg, j11)) => match spec_expect(b, j11, seq![125u8]) {
        None => None,
        Some(j12) => Some((pal, seq![a0, a1, a2, a3, a4, a5], fg, bg, j12)),
    },
    },
    },
    },
    },
    },
    },
    },
    },
    },
    },
    },
    }
}

#[verifier::rlimit(100)]
fn parse_colors(buf: &[u8], i: usize) -> (r: Option<(Colors<Srgb>, usize)>)
    ensures
        (match spec_parse_colors(buf@, i as int) {
            Some(p) => (r matches Some(q) && q.0.palette == p.0 && q.0.accents@ == p.1
                && q.0.foreground == p.2 && q.0.background == p.3 && q.1 == p.4 && p.4
                <= buf@.len()),
            None => r is None,
        }),
{
    proof {
        reveal(spec_parse_colors);
    }
    let n = buf.len();
    proof { assert(buf@.len() == n); }
    let ap = arr_obj_palette();
    let j0 = match expect_seq(buf, i, ap.as_slice()) { Some(x) => x, None => { return None; } };
    let (pal, j1) = match parse_palette(buf, j0) { Some(x) => x, None => { return None; } };
    let aa = arr_sep_accents();
    let j2 = match expect_seq(buf, j1, aa.as_slice()) { Some(x) => x, None => { return None; } };
    let (a0, j3) = match parse_srgb(buf, j2) { Some(x) => x, None => { return None; } };
    let (a1, j4) = match parse_csrgb(buf, j3) { Some(x) => x, None => { return None; } };
    let (a2, j5) = match parse_csrgb(buf, j4) { Some(x) => x, None => { return None; } };
    let (a3, j6) = match parse_csrgb(buf, j5) { Some(x) => x, None => { return None; } };
    let (a4, j7) = match parse_csrgb(buf, j6) { Some(x) => x, None => { return None; } };
    let (a5, j8) = match parse_csrgb(buf, j7) { Some(x) => x, None => { return None; } };
    let j9 = match expect_byte(buf, j8, 93) { Some(x) => x, None => { return None; } };
    let af = arr_sep_foreground();
    let (fg, j10) = match parse_slot(buf, j9, af.as_slice()) { Some(x) => x, None => { return None; } };
    let ab = arr_sep_background();
    let (bg, j11) = match parse_slot(buf, j10, ab.as_slice()) { Some(x) => x, None => { return None; } };
    let j12 = match expect_byte(buf, j11, 125) { Some(x) => x, None => { return None; } };
    let mut accents: Vec<Srgb> = Vec::new();
    accents.push(a0);
    accents.push(a1);
    accents.push(a2);
    accents.push(a3);
    accents.push(a4);
    accents.push(a5);
    proof {
        assert(accents@ =~= seq![a0, a1, a2, a3, a4, a5]);
        reveal(spec_parse_colors);
        assert(spec_parse_colors(buf@, i as int) == Some(
            (pal, seq![a0, a1, a2, a3, a4, a5], fg, bg, j12 as int),
        ));
    }
    Some((Colors { palette: pal, accents, foreground: fg, background: bg }, j12))
}

/// The pieces of an emitted color set, each at its place in the window.
#[verifier::rlimit(100)]
proof fn lemma_colors_pieces(b: Seq<u8>, i: int, c: Colors<Srgb>)
    requires
        0 <= i,
        i + spec_emit_colors(c).len() <= b.len(),
        b.subrange(i, i + spec_emit_colors(c).len()) == spec_emit_colors(c),
    ensures
        spec_emit_colors(c).len() == 769,
        b.subrange(i + 0, i + 11) == lit_obj_palette(),
        b.subrange(i + 11, i + 402) == spec_emit_palette(c.palette),
        b.subrange(i + 402, i + 414) == lit_sep_accents(),
        b.subrange(i + 414, i + 454) == spec_emit_srgb(c.accents@[0]),
        b.subrange(i + 454, i + 455) == seq![44u8],
        b.subrange(i + 455, i + 495) == spec_emit_srgb(c.accents@[1]),
        b.subrange(i + 495, i + 496) == seq![44u8],
        b.subrange(i + 496, i + 536) == spec_emit_srgb(c.accents@[2]),
        b.subrange(i + 536, i + 537) == seq![44u8],
        b.subrange(i + 537, i + 577) == spec_emit_srgb(c.accents@[3]),
        b.subrange(i + 577, i + 578) == seq![44u8],
        b.subrange(i + 578, i + 618) == spec_emit_srgb(c.accents@[4]),
        b.subrange(i + 618, i + 619) == seq![44u8],
        b.subrange(i + 619, i + 659) == spec_emit_srgb(c.accents@[5]),
        b.subrange(i + 659, i + 660) == seq![93u8],
        b.subrange(i + 660, i + 674) == lit_sep_foreground(),
        b.subrange(i + 674, i + 714) == spec_emit_srgb(c.foreground),
        b.subrange(i + 714, i + 728) == lit_sep_background(),
        b.subrange(i + 728, i + 768) == spec_emit_srgb(c.background),
        b.subrange(i + 768, i + 769) == seq![125u8],
{
    reveal(spec_emit_colors);
    lemma_emit_palette_len(c.palette);
    lemma_emit_srgb_len(c.accents@[0]);
    lemma_emit_srgb_len(c.accents@[1]);
    lemma_emit_srgb_len(c.accents@[2]);
    lemma_emit_srgb_len(c.accents@[3]);
    lemma_emit_srgb_len(c.accents@[4]);
    lemma_emit_srgb_len(c.accents@[5]);
    lemma_emit_srgb_len(c.foreground);
    lemma_emit_srgb_len(c.background);
    let e = spec_emit_colors(c);
    let t0 = lit_obj_palette();
    let t1 = spec_emit_palette(c.palette);
    let t2 = lit_sep_accents();
    let t3 = spec_emit_srgb(c.accents@[0]);
    let t4 = seq![44u8];
    let t5 = spec_emit_srgb(c.accents@[1]);
    let t6 = seq![44u8];
    let t7 = spec_emit_srgb(c.accents@[2]);
    let t8 = seq![44u8];
    let t9 = spec_emit_srgb(c.accents@[3]);
    let t10 = seq![44u8];
    let t11 = spec_emit_srgb(c.accents@[4]);
    let t12 = seq![44u8];
    let t13 = spec_emit_srgb(c.accents@[5]);
    let t14 = seq![93u8];
    let t15 = lit_sep_foreground();
    let t16 = spec_emit_srgb(c.foreground);
    let t17 = lit_sep_background();
    let t18 = spec_emit_srgb(c.background);
    let t19 = seq![125u8];
    let c0 = t0;
    let c1 = c0 + t1;
    let c2 = c1 + t2;
    let c3 = c2 + t3;
    let c4 = c3 + t4;
    let c5 = c4 + t5;
    let c6 = c5 + t6;
    let c7 = c6 + t7;
    let c8 = c7 + t8;
    let c9 = c8 + t9;
    let c10 = c9 + t10;
    let c11 = c10 + t11;
    let c12 = c11 + t12;
    let c13 = c12 + t13;
    let c14 = c13 + t14;
    let c15 = c14 + t15;
    let c16 = c15 + t16;
    let c17 = c16 + t17;
    let c18 = c17 + t18;
    let c19 = c18 + t19;
    assert(e == c19);
    assert(c0.len() == 11);
    assert(c1.len() == 402);
    assert(c2.len() == 414);
    assert(c3.len() == 454);
    assert(c4.len() == 455);
    assert(c5.len() == 495);
    assert(c6.len() == 496);
    assert(c7.len() == 536);
    assert(c8.len() == 537);
    assert(c9.len() == 577);
    assert(c10.len() == 578);
    assert(c11.len() == 618);
    assert(c12.len() == 619);
    assert(c13.len() == 659);
    assert(c14.len() == 660);
    assert(c15.len() == 674);
    assert(c16.len() == 714);
    assert(c17.len() == 728);
    assert(c18.len() == 768);
    assert(c19.len() == 769);
    lemma_split_concat(b, i, c18, t19);
    lemma_split_concat(b, i, c17, t18);
    lemma_split_concat(b, i, c16, t17);
    lemma_split_concat(b, i, c15, t16);
    lemma_split_concat(b, i, c14, t15);
    lemma_split_concat(b, i, c13, t14);
    lemma_split_concat(b, i, c12, t13);
    lemma_split_concat(b, i, c11, t12);
    lemma_split_concat(b, i, c10, t11);
    lemma_split_concat(b, i, c9, t10);
    lemma_split_concat(b, i, c8, t9);
    lemma_split_concat(b, i, c7, t8);
    lemma_split_concat(b, i, c6, t7);
    lemma_split_concat(b, i, c5, t6);
    lemma_split_concat(b, i, c4, t5);
    lemma_split_concat(b, i, c3, t4);
    lemma_split_concat(b, i, c2, t3);
    lemma_split_concat(b, i, c1, t2);
    lemma_split_concat(b, i, c0, t1);
}

/// Parsing the emission of a color set gives it back, field for field.
#[verifier::rlimit(100)]
proof fn lemma_parse_colors_of_emit(b: Seq<u8>, i: int, c: Colors<Srgb>)
    requires
        spec_colors_wf(c),
        0 <= i,
        i + spec_emit_colors(c).len() <= b.len(),
        b.subrange(i, i + spec_emit_colors(c).len()) == spec_emit_colors(c),
    ensures
        spec_emit_colors(c).len() == 769,
        spec_parse_colors(b, i) == Some((c.palette, c.accents@, c.foreground, c.background, i
            + 769)),
{
    reveal(spec_parse_colors);
    lemma_colors_pieces(b, i, c);
    lemma_parse_palette_of_emit(b, i + 11, c.palette);
    lemma_parse_srgb_of_emit(b, i + 414, c.accents@[0]);
    lemma_parse_csrgb_of_emit(b, i + 454, c.accents@[1]);
    lemma_parse_csrgb_of_emit(b, i + 495, c.accents@[2]);
    lemma_parse_csrgb_of_emit(b, i + 536, c.accents@[3]);
    lemma_parse_csrgb_of_emit(b, i + 577, c.accents@[4]);
    lemma_parse_csrgb_of_emit(b, i + 618, c.accents@[5]);
    lemma_parse_slot_of_emit(b, i + 660, lit_sep_foreground(), c.foreground);
    lemma_parse_slot_of_emit(b, i + 714, lit_sep_background(), c.background);
    assert(seq![c.accents@[0], c.accents@[1], c.accents@[2], c.accents@[3], c.accents@[4], c.accents@[5]] =~= c.accents@);
    assert(spec_parse_colors(b, i) == Some((c.palette, c.accents@, c.foreground, c.background, i + 769)));
}

/// Serializes a generated color set to the interchange format.
pub fn colors_to_json(c: &Colors<Srgb>) -> (r: Vec<u8>)
    requires
        spec_colors_wf(*c),
    ensures
        r@ == spec_emit_colors(*c),
{
    let mut out: Vec<u8> = Vec::new();
    push_colors(&mut out, c);
    out
}

/// Parses a whole interchange document into a color set.
pub fn colors_from_json(buf: &[u8]) -> (r: Option<Colors<Srgb>>)
    ensures
        (match spec_parse_colors(buf@, 0) {
            Some(p) => {
                if p.4 == buf@.len() {
                    (r matches Some(q) && q.palette == p.0 && q.accents@ == p.1 && q.foreground
                        == p.2 && q.background == p.3)
                } else {
                    r is None
                }
            },
            None => r is None,
        }),
{
    let n = buf.len();
    match parse_colors(buf, 0) {
        Some((c, pos)) => {
            if pos == n {
                Some(c)
            } else {
                None
            }
        },
        None => None,
    }
}

/// Serializing a color set to the interchange format and parsing the
/// document back yields the same structure, field for field.
pub proof fn lemma_colors_round_trip(c: Colors<Srgb>)
    requires
        spec_colors_wf(c),
    ensures
        (match spec_parse_colors(spec_emit_colors(c), 0) {
            Some(p) => p.0 == c.palette && p.1 == c.accents@ && p.2 == c.foreground && p.3
                == c.background && p.4 == spec_emit_colors(c).len(),
            None => false,
        }),
{
    let e = spec_emit_colors(c);
    assert(e.subrange(0, e.len() as int) =~= e);
    lemma_parse_colors_of_emit(e, 0, c);
}

/// Text that may stand unescaped inside a JSON string: printable bytes,
/// neither the quote nor the backslash.
pub open spec fn plain_text(w: Seq<u8>) -> bool {
    forall|k: int| 0 <= k < w.len() ==> 32 <= #[trigger] w[k] <= 126 && w[k] != 34 && w[k] != 92
}

/// The wallpaper path as the parser reports it.
pub open spec fn spec_wall_view(w: Option<Vec<u8>>) -> Option<Seq<u8>> {
    match w {
        None => None,
        Some(v) => Some(v@),
    }
}

/// A theme fit for the interchange format.
pub open spec fn spec_theme_wf(t: Theme) -> bool {
    &&& spec_colors_wf(t.colors)
    &&& (match t.wallpaper {
        None => true,
        Some(w) => plain_text(w@),
    })
}

/// The wallpaper value: `null`, or the path in quotes.
pub open spec fn spec_emit_wallpaper(w: Option<Vec<u8>>) -> Seq<u8> {
    match w {
        None => lit_null(),
        Some(v) => seq![34u8] + v@ + seq![34u8],
    }
}

/// The theme as one JSON object.
#[verifier::opaque]
pub open spec fn spec_emit_theme(t: Theme) -> Seq<u8> {
    lit_obj_wallpaper() + spec_emit_wallpaper(t.wallpaper) + lit_sep_colors() + spec_emit_colors(
        t.colors,
    ) + seq![125u8]
}

/// Writes the theme object.
fn push_theme(out: &mut Vec<u8>, t: &Theme)
    requires
        spec_theme_wf(*t),
    ensures
        final(out)@ == old(out)@ + spec_emit_theme(*t),
{
    proof {
        reveal(spec_emit_theme);
    }
    let a0 = arr_obj_wallpaper();
    push_seq(out, a0.as_slice());
    match &t.wallpaper {
        None => {
            let a1 = arr_null();
            push_seq(out, a1.as_slice());
        },
        Some(w) => {
            push_byte(out, 34);
            push_seq(out, w.as_slice());
            push_byte(out, 34);
        },
    }
    let a2 = arr_sep_colors();
    push_seq(out, a2.as_slice());
    push_colors(out, &t.colors);
    push_byte(out, 125);
    proof {
        assert(out@ =~= old(out)@ + spec_emit_theme(*t));
    }
}

/// Scans a quoted string's bytes up to its closing quote.
pub open spec fn spec_scan_string(b: Seq<u8>, i: int) -> Option<(Seq<u8>, int)>
    decreases b.len() - i,
{
    if i < 0 || i >= b.len() {
        None
    } else if b[i] == 34 {
        Some((Seq::empty(), i + 1))
    } else {
        match spec_scan_string(b, i + 1) {
            None => None,
            Some((s, j)) => Some((seq![b[i]] + s, j)),
        }
    }
}

fn scan_string(buf: &[u8], i: usize) -> (r: Option<(Vec<u8>, usize)>)
    ensures
        (match spec_scan_string(buf@, i as int) {
            Some(p) => (r matches Some(q) && q.0@ == p.0 && q.1 == p.1 && p.1 <= buf@.len()),
            None => r is None,
        }),
{
    let n = buf.len();
    if i >= n {
        return None;
    }
    let mut j: usize = i;
    let mut acc: Vec<u8> = Vec::new();
    while j < n
        invariant
            n == buf@.len(),
            i <= j <= n,
            (match spec_scan_string(buf@, i as int) {
                Some(p) => (match spec_scan_string(buf@, j as int) {
                    Some(p2) => p.0 == acc@ + p2.0 && p.1 == p2.1,
                    None => false,
                }),
                None => (spec_scan_string(buf@, j as int) is None),
            }),
        decreases n - j,
    {
        let b = buf[j];
        if b == 34 {
            proof {
                assert(spec_scan_string(buf@, j as int) == Some((Seq::<u8>::empty(), j + 1)));
                if spec_scan_string(buf@, i as int) is Some {
                    assert(acc@ + Seq::<u8>::empty() =~= acc@);
                }
            }
            return Some((acc, j + 1));
        }
        proof {
            let tail = spec_scan_string(buf@, j + 1);
            assert(spec_scan_string(buf@, j as int) == (match tail {
                None => None::<(Seq<u8>, int)>,
                Some((s, e)) => Some((seq![buf@[j as int]] + s, e)),
            }));
            if spec_scan_string(buf@, i as int) is Some && tail is Some {
                let s3 = tail->Some_0.0;
                assert((acc@ + seq![buf@[j as int]]) + s3 =~= acc@ + (seq![buf@[j as int]]
                    + s3));
            }
        }
        acc.push(b);
        j = j + 1;
    }
    None
}

/// Scanning plain text followed by a quote finds exactly that text.
proof fn lemma_scan_of_plain(b: Seq<u8>, i: int, w: Seq<u8>)
    requires
        0 <= i,
        plain_text(w),
        i + w.len() + 1 <= b.len(),
        b.subrange(i, i + w.len()) == w,
        b[i + w.len()] == 34,
    ensures
        spec_scan_string(b, i) == Some((w, i + w.len() + 1)),
    decreases w.len(),
{
    if w.len() == 0 {
        assert(b[i] == 34);
        assert(w =~= Seq::<u8>::empty());
    } else {
        assert(b[i] == w[0]) by {
            assert(b.subrange(i, i + w.len())[0] == b[i]);
        }
        assert(w[0] != 34);
        let w2 = w.subrange(1, w.len() as int);
        lemma_subrange_shift(b, i, w, 1, w.len() as int);
        lemma_scan_of_plain(b, i + 1, w2);
        assert(seq![w[0]] + w2 =~= w);
    }
}

/// The tail of a theme document after the wallpaper value.
pub open spec fn spec_parse_theme_tail(b: Seq<u8>, j: int, w: Option<Seq<u8>>) -> Option<(
    Option<Seq<u8>>,
    Palette<Srgb>,
    Seq<Srgb>,
    Srgb,
    Srgb,
    int,
)> {
    match spec_expect(b, j, lit_sep_colors()) {
        None => None,
        Some(j2) => match spec_parse_colors(b, j2) {
            None => None,
            Some((pal, acc, fg, bg, j3)) => match spec_expect(b, j3, seq![125u8]) {
                None => None,
                Some(j4) => Some((w, pal, acc, fg, bg, j4)),
            },
        },
    }
}

/// Reads a theme document: the wallpaper value, then the color set.
#[verifier::opaque]
pub open spec fn spec_parse_theme(b: Seq<u8>, i: int) -> Option<(
    Option<Seq<u8>>,
    Palette<Srgb>,
    Seq<Srgb>,
    Srgb,
    Srgb,
    int,
)> {
    match spec_expect(b, i, lit_obj_wallpaper()) {
        None => None,
        Some(j0) => match spec_expect(b, j0, lit_null()) {
            Some(j1) => spec_parse_theme_tail(b, j1, None),
            None => match spec_expect(b, j0, seq![34u8]) {
                None => None,
                Some(jq) => match spec_scan_string(b, jq) {
                    None => None,
                    Some((w, j1)) => spec_parse_theme_tail(b, j1, Some(w)),
                },
            },
        },
    }
}

#[verifier::rlimit(100)]
fn parse_theme(buf: &[u8], i: usize) -> (r: Option<(Theme, usize)>)
    ensures
        (match spec_parse_theme(buf@, i as int) {
            Some(p) => (r matches Some(q) && spec_wall_view(q.0.wallpaper) == p.0
                && q.0.colors.palette == p.1 && q.0.colors.accents@ == p.2
                && q.0.colors.foreground == p.3 && q.0.colors.background == p.4 && q.1 == p.5
                && p.5 <= buf@.len()),
            None => r is None,
        }),
{
    proof {
        reveal(spec_parse_theme);
    }
    let n = buf.len();
    proof {
        assert(buf@.len() == n);
    }
    let a0 = arr_obj_wallpaper();
    let j0 = match expect_seq(buf, i, a0.as_slice()) {
        Some(x) => x,
        None => {
            return None;
        },
    };
    let anull = arr_null();
    let (wallpaper, j1) = match expect_seq(buf, j0, anull.as_slice()) {
        Some(j1) => (None, j1),
        None => {
            let jq = match expect_byte(buf, j0, 34) {
                Some(x) => x,
                None => {
                    return None;
                },
            };
            match scan_string(buf, jq) {
                Some((w, j1)) => (Some(w), j1),
                None => {
                    return None;
                },
            }
        },
    };
    let a2 = arr_sep_colors();
    let j2 = match expect_seq(buf, j1, a2.as_slice()) {
        Some(x) => x,
        None => {
            return None;
        },
    };
    let (colors, j3) = match parse_colors(buf, j2) {
        Some(x) => x,
        None => {
            return None;
        },
    };
    let j4 = match expect_byte(buf, j3, 125) {
        Some(x) => x,
        None => {
            return None;
        },
    };
    Some((Theme { wallpaper, colors }, j4))
}

/// An emitted color set is seven hundred sixty-nine bytes.
proof fn lemma_emit_colors_len(c: Colors<Srgb>)
    ensures
        spec_emit_colors(c).len() == 769,
{
    reveal(spec_emit_colors);
    lemma_emit_palette_len(c.palette);
    lemma_emit_srgb_len(c.accents@[0]);
    lemma_emit_srgb_len(c.accents@[1]);
    lemma_emit_srgb_len(c.accents@[2]);
    lemma_emit_srgb_len(c.accents@[3]);
    lemma_emit_srgb_len(c.accents@[4]);
    lemma_emit_srgb_len(c.accents@[5]);
    lemma_emit_srgb_len(c.foreground);
    lemma_emit_srgb_len(c.background);
}

/// Parsing the emission of a theme gives it back, field for field.
#[verifier::rlimit(100)]
proof fn lemma_parse_theme_of_emit(b: Seq<u8>, i: int, t: Theme)
    requires
        spec_theme_wf(t),
        0 <= i,
        i + spec_emit_theme(t).len() <= b.len(),
        b.subrange(i, i + spec_emit_theme(t).len()) == spec_emit_theme(t),
    ensures
        spec_parse_theme(b, i) == Some(
            (
                spec_wall_view(t.wallpaper),
                t.colors.palette,
                t.colors.accents@,
                t.colors.foreground,
                t.colors.background,
                i + spec_emit_theme(t).len(),
            ),
        ),
{
    reveal(spec_emit_theme);
    reveal(spec_parse_theme);
    lemma_emit_colors_len(t.colors);
    let e = spec_emit_theme(t);
    let t0 = lit_obj_wallpaper();
    let t1 = spec_emit_wallpaper(t.wallpaper);
    let t2 = lit_sep_colors();
    let t3 = spec_emit_colors(t.colors);
    let t4 = seq![125u8];
    let c0 = t0;
    let c1 = c0 + t1;
    let c2 = c1 + t2;
    let c3 = c2 + t3;
    let c4 = c3 + t4;
    assert(e == c4);
    lemma_split_concat(b, i, c3, t4);
    lemma_split_concat(b, i, c2, t3);
    lemma_split_concat(b, i, c1, t2);
    lemma_split_concat(b, i, c0, t1);
    let j0 = i + 13;
    let wl = t1.len() as int;
    match t.wallpaper {
        None => {
            assert(t1 == lit_null());
            assert(spec_expect(b, j0, lit_null()) == Some(j0 + 4));
        },
        Some(w) => {
            assert(t1 == seq![34u8] + w@ + seq![34u8]);
            assert(b.subrange(j0, j0 + wl) == t1);
            assert(b[j0] == 34) by {
                assert(b.subrange(j0, j0 + wl)[0] == b[j0]);
                assert(t1[0] == 34);
            }
            assert(spec_expect(b, j0, lit_null()) is None) by {
                if b.subrange(j0, j0 + 4) == lit_null() {
                    assert(b.subrange(j0, j0 + 4)[0] == b[j0]);
                    assert(lit_null()[0] == 110);
                }
            }
            assert(spec_expect(b, j0, seq![34u8]) == Some(j0 + 1)) by {
                assert(b.subrange(j0, j0 + 1) =~= seq![34u8]);
            }
            let wq = seq![34u8] + w@;
            let c1h = c0 + wq;
            assert(c1 == c1h + seq![34u8]) by {
                assert(c1 =~= c1h + seq![34u8]);
            }
            assert(b.subrange(i, i + 13 + wl) == c1);
            lemma_split_concat(b, i, c1h, seq![34u8]);
            lemma_split_concat(b, i, c0, wq);
            lemma_split_concat(b, j0, seq![34u8], w@);
            assert(b[j0 + 1 + w@.len()] == 34) by {
                assert(b.subrange(i + c1h.len() as int, i + c1.len() as int)[0] == b[i
                    + c1h.len()]);
            }
            lemma_scan_of_plain(b, j0 + 1, w@);
        },
    }
    let j1 = j0 + wl;
    assert(spec_expect(b, j1, lit_sep_colors()) == Some(j1 + 10));
    lemma_parse_colors_of_emit(b, j1 + 10, t.colors);
    assert(spec_expect(b, j1 + 10 + 769, seq![125u8]) == Some(j1 + 10 + 769 + 1));
}

/// Serializes a theme to the interchange format.
pub fn theme_to_json(t: &Theme) -> (r: Vec<u8>)
    requires
        spec_theme_wf(*t),
    ensures
        r@ == spec_emit_theme(*t),
{
    let mut out: Vec<u8> = Vec::new();
    push_theme(&mut out, t);
    out
}

/// Parses a whole interchange document into a theme.
pub fn theme_from_json(buf: &[u8]) -> (r: Option<Theme>)
    ensures
        (match spec_parse_theme(buf@, 0) {
            Some(p) => {
                if p.5 == buf@.len() {
                    (r matches Some(q) && spec_wall_view(q.wallpaper) == p.0 && q.colors.palette
                        == p.1 && q.colors.accents@ == p.2 && q.colors.foreground == p.3
                        && q.colors.background == p.4)
                } else {
                    r is None
                }
            },
            None => r is None,
        }),
{
    let n = buf.len();
    match parse_theme(buf, 0) {
        Some((t, pos)) => {
            if pos == n {
                Some(t)
            } else {
                None
            }
        },
        None => None,
    }
}

/// Serializing a theme to the interchange format and parsing the document
/// back yields the same structure, field for field.
pub proof fn lemma_theme_round_trip(t: Theme)
    requires
        spec_theme_wf(t),
    ensures
        (match spec_parse_theme(spec_emit_theme(t), 0) {
            Some(p) => p.0 == spec_wall_view(t.wallpaper) && p.1 == t.colors.palette && p.2
                == t.colors.accents@ && p.3 == t.colors.foreground && p.4 == t.colors.background
                && p.5 == spec_emit_theme(t).len(),
            None => false,
        }),
{
    let e = spec_emit_theme(t);
    assert(e.subrange(0, e.len() as int) =~= e);
    lemma_parse_theme_of_emit(e, 0, t);
}

} // verus!
