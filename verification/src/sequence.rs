//! Terminal control sequences: the OSC byte strings that set a terminal's
//! sixteen indexed colors and its special foreground and background slots
//! from a generated color set.

use vstd::prelude::*;

use crate::color::Srgb;
use crate::hex::spec_hex_code;
use crate::theme::{Colors, Theme};

verus! {

/// The decimal digits of a non-negative number.
pub open spec fn spec_decimal(n: int) -> Seq<u8>
    decreases n,
{
    if n < 10 {
        seq![(48 + if n >= 0 {
            n
        } else {
            0
        }) as u8]
    } else {
        spec_decimal(n / 10).push((48 + n % 10) as u8)
    }
}

/// Writes `n` in decimal.
fn push_decimal(out: &mut Vec<u8>, n: u16)
    ensures
        final(out)@ == old(out)@ + spec_decimal(n as int),
    decreases n,
{
    if n < 10 {
        out.push(48 + (n as u8));
        proof {
            assert(out@ =~= old(out)@ + spec_decimal(n as int));
        }
    } else {
        push_decimal(out, n / 10);
        out.push(48 + ((n % 10) as u8));
        proof {
            assert(out@ =~= old(out)@ + spec_decimal(n as int));
        }
    }
}

/// The sequence that sets indexed color `idx`: `ESC ] 4 ; idx ; #rrggbb ESC \`.
pub open spec fn spec_regular_sequence(idx: int, c: Srgb) -> Seq<u8> {
    seq![27u8, 93u8, 52u8, 59u8] + spec_decimal(idx) + seq![59u8] + spec_hex_code(c) + seq![
        27u8,
        92u8,
    ]
}

/// The sequence that sets special slot `idx`: `ESC ] idx ; #rrggbb ESC \`.
pub open spec fn spec_special_sequence(idx: int, c: Srgb) -> Seq<u8> {
    seq![27u8, 93u8] + spec_decimal(idx) + seq![59u8] + spec_hex_code(c) + seq![27u8, 92u8]
}

fn push_regular(out: &mut Vec<u8>, idx: u16, c: &Srgb)
    requires
        c.wf(),
    ensures
        final(out)@ == old(out)@ + spec_regular_sequence(idx as int, *c),
{
    out.push(27);
    out.push(93);
    out.push(52);
    out.push(59);
    push_decimal(out, idx);
    out.push(59);
    let hex = crate::hex::hex_code(c);
    let mut k: usize = 0;
    while k < hex.len()
        invariant
            k <= hex@.len(),
            out@ =~= old(out)@ + seq![27u8, 93u8, 52u8, 59u8] + spec_decimal(idx as int) + seq![
                59u8,
            ] + hex@.subrange(0, k as int),
        decreases hex@.len() - k,
    {
        out.push(hex[k]);
        k = k + 1;
    }
    out.push(27);
    out.push(92);
    proof {
        assert(out@ =~= old(out)@ + spec_regular_sequence(idx as int, *c));
    }
}

fn push_special(out: &mut Vec<u8>, idx: u16, c: &Srgb)
    requires
        c.wf(),
    ensures
        final(out)@ == old(out)@ + spec_special_sequence(idx as int, *c),
{
    out.push(27);
    out.push(93);
    push_decimal(out, idx);
    out.push(59);
    let hex = crate::hex::hex_code(c);
    let mut k: usize = 0;
    while k < hex.len()
        invariant
            k <= hex@.len(),
            out@ =~= old(out)@ + seq![27u8, 93u8] + spec_decimal(idx as int) + seq![59u8]
                + hex@.subrange(0, k as int),
        decreases hex@.len() - k,
    {
        out.push(hex[k]);
        k = k + 1;
    }
    out.push(27);
    out.push(92);
    proof {
        assert(out@ =~= old(out)@ + spec_special_sequence(idx as int, *c));
    }
}

/// Both sequences of one palette slot: its normal and its bright index.
pub open spec fn spec_slot_pair(idx: int, c: Srgb) -> Seq<u8> {
    spec_regular_sequence(idx, c) + spec_regular_sequence(idx + 8, c)
}

/// The whole control stream of a color set: the sixteen indexed colors (each
/// palette slot at its index and again eight above it), then the background
/// on the three background slots and the foreground on the four foreground
/// slots.
pub open spec fn spec_control_sequence(c: Colors<Srgb>) -> Seq<u8> {
    spec_slot_pair(0, c.palette.black) + spec_slot_pair(1, c.palette.red) + spec_slot_pair(
        2,
        c.palette.green,
    ) + spec_slot_pair(3, c.palette.yellow) + spec_slot_pair(4, c.palette.blue) + spec_slot_pair(
        5,
        c.palette.purple,
    ) + spec_slot_pair(6, c.palette.cyan) + spec_slot_pair(7, c.palette.white)
        + spec_special_sequence(11, c.background) + spec_special_sequence(19, c.background)
        + spec_special_sequence(232, c.background) + spec_special_sequence(10, c.foreground)
        + spec_special_sequence(13, c.foreground) + spec_special_sequence(17, c.foreground)
        + spec_special_sequence(256, c.foreground)
}

fn push_slot_pair(out: &mut Vec<u8>, idx: u16, c: &Srgb)
    requires
        c.wf(),
        idx < 8,
    ensures
        final(out)@ == old(out)@ + spec_slot_pair(idx as int, *c),
{
    push_regular(out, idx, c);
    push_regular(out, idx + 8, c);
    proof {
        assert(out@ =~= old(out)@ + spec_slot_pair(idx as int, *c));
    }
}

impl Theme {
    /// The control bytes that apply this theme's colors to a terminal.
    pub fn sequence(&self) -> (r: Vec<u8>)
        requires
            crate::codec::spec_colors_wf(self.colors),
        ensures
            r@ == spec_control_sequence(self.colors),
    {
        let mut out: Vec<u8> = Vec::new();
        push_slot_pair(&mut out, 0, &self.colors.palette.black);
        push_slot_pair(&mut out, 1, &self.colors.palette.red);
        push_slot_pair(&mut out, 2, &self.colors.palette.green);
        push_slot_pair(&mut out, 3, &self.colors.palette.yellow);
        push_slot_pair(&mut out, 4, &self.colors.palette.blue);
        push_slot_pair(&mut out, 5, &self.colors.palette.purple);
        push_slot_pair(&mut out, 6, &self.colors.palette.cyan);
        push_slot_pair(&mut out, 7, &self.colors.palette.white);
        push_special(&mut out, 11, &self.colors.background);
        push_special(&mut out, 19, &self.colors.background);
        push_special(&mut out, 232, &self.colors.background);
        push_special(&mut out, 10, &self.colors.foreground);
        push_special(&mut out, 13, &self.colors.foreground);
        push_special(&mut out, 17, &self.colors.foreground);
        push_special(&mut out, 256, &self.colors.foreground);
        proof {
            assert(out@ =~= spec_control_sequence(self.colors));
        }
        out
    }
}

} // verus!
