//! Conversions between fixed-point sRGB colors, eight-bit channel bytes and
//! `#rrggbb` hex codes, and the plugin-facing color record built from them.

use vstd::prelude::*;

use crate::color::Srgb;
use crate::theme::{Colors, Palette, Theme};

verus! {

/// The channel value (in thousandths) closest to `b / 255`.
pub open spec fn spec_channel_from_byte(b: u8) -> i64 {
    ((b * 1000 + 127) / 255) as i64
}

/// The byte closest to `v / 1000` of the full byte range.
pub open spec fn spec_channel_to_byte(v: i64) -> u8 {
    ((v * 255 + 500) / 1000) as u8
}

/// Scales an eight-bit channel up to thousandths, rounding to nearest.
pub fn channel_from_byte(b: u8) -> (r: i64)
    ensures
        r == spec_channel_from_byte(b),
        0 <= r <= 1000,
{
    let w: i64 = (b as i64) * 1000 + 127;
    proof {
        vstd::arithmetic::div_mod::lemma_div_pos_is_pos(w as int, 255);
        vstd::arithmetic::div_mod::lemma_div_is_ordered(w as int, 255127, 255);
        assert(255127int / 255int == 1000) by (nonlinear_arith);
    }
    w / 255
}

/// Scales a channel in thousandths down to an eight-bit value, rounding to
/// nearest.
pub fn channel_to_byte(v: i64) -> (r: u8)
    requires
        0 <= v <= 1000,
    ensures
        r == spec_channel_to_byte(v),
        r as int == (v * 255 + 500) / 1000,
{
    let w: i64 = v * 255 + 500;
    proof {
        vstd::arithmetic::div_mod::lemma_div_pos_is_pos(w as int, 1000);
        vstd::arithmetic::div_mod::lemma_div_is_ordered(w as int, 255500, 1000);
        assert(255500int / 1000int == 255) by (nonlinear_arith);
    }
    (w / 1000) as u8
}

/// Scaling a byte up to thousandths and back down returns the byte: the two
/// roundings cancel.
pub proof fn lemma_channel_byte_round_trip(b: u8)
    ensures
        spec_channel_to_byte(spec_channel_from_byte(b)) == b,
{
    let w = b * 1000 + 127;
    let n = w / 255;
    vstd::arithmetic::div_mod::lemma_fundamental_div_mod(w as int, 255);
    vstd::arithmetic::div_mod::lemma_mod_bound(w as int, 255);
    vstd::arithmetic::div_mod::lemma_div_pos_is_pos(w as int, 255);
    assert(255 * n <= w < 255 * n + 255);
    assert(1000 * b - 128 <= 255 * n <= 1000 * b + 127);
    assert((n * 255 + 500) / 1000 == b) by {
        let m = n * 255 + 500;
        assert(1000 * b + 372 <= n * 255 + 500 <= 1000 * b + 627) by (nonlinear_arith)
            requires
                1000 * b - 128 <= 255 * n <= 1000 * b + 127,
        ;
        vstd::arithmetic::div_mod::lemma_fundamental_div_mod_converse_mod(
            m,
            1000,
            b as int,
            m - 1000 * b,
        );
        vstd::arithmetic::div_mod::lemma_fundamental_div_mod_converse_div(
            m,
            1000,
            b as int,
            m - 1000 * b,
        );
    }
}

impl Srgb {
    /// The color of three eight-bit channels, as the engine's fixed-point
    /// representation.
    pub fn from_bytes(red: u8, green: u8, blue: u8) -> (c: Srgb)
        ensures
            c.red == spec_channel_from_byte(red),
            c.green == spec_channel_from_byte(green),
            c.blue == spec_channel_from_byte(blue),
            c.wf(),
    {
        Srgb {
            red: channel_from_byte(red),
            green: channel_from_byte(green),
            blue: channel_from_byte(blue),
        }
    }

    /// The three eight-bit channels of a normalized color.
    pub fn to_bytes(&self) -> (r: (u8, u8, u8))
        requires
            self.wf(),
        ensures
            r.0 == spec_channel_to_byte(self.red),
            r.1 == spec_channel_to_byte(self.green),
            r.2 == spec_channel_to_byte(self.blue),
    {
        (channel_to_byte(self.red), channel_to_byte(self.green), channel_to_byte(self.blue))
    }
}

/// The lowercase hex digit of a value below sixteen.
pub open spec fn spec_hex_digit(n: int) -> u8 {
    if n < 10 {
        (48 + n) as u8
    } else {
        (87 + n) as u8
    }
}

fn hex_digit(n: u8) -> (r: u8)
    requires
        n < 16,
    ensures
        r == spec_hex_digit(n as int),
{
    if n < 10 {
        48 + n
    } else {
        87 + n
    }
}

/// A byte as two lowercase hex digits.
pub open spec fn spec_hex_byte(b: u8) -> Seq<u8> {
    seq![spec_hex_digit(b as int / 16), spec_hex_digit(b as int % 16)]
}

/// The `#rrggbb` code of a normalized color, as bytes.
pub open spec fn spec_hex_code(c: Srgb) -> Seq<u8> {
    seq![35u8] + spec_hex_byte(spec_channel_to_byte(c.red)) + spec_hex_byte(
        spec_channel_to_byte(c.green),
    ) + spec_hex_byte(spec_channel_to_byte(c.blue))
}

fn push_hex_byte(out: &mut Vec<u8>, b: u8)
    ensures
        final(out)@ == old(out)@ + spec_hex_byte(b),
{
    out.push(hex_digit(b / 16));
    out.push(hex_digit(b % 16));
    proof {
        assert(out@ =~= old(out)@ + spec_hex_byte(b));
    }
}

/// Formats a normalized color as its `#rrggbb` code.
pub fn hex_code(c: &Srgb) -> (r: Vec<u8>)
    requires
        c.wf(),
    ensures
        r@ == spec_hex_code(*c),
{
    let mut out: Vec<u8> = Vec::new();
    out.push(35);
    push_hex_byte(&mut out, channel_to_byte(c.red));
    push_hex_byte(&mut out, channel_to_byte(c.green));
    push_hex_byte(&mut out, channel_to_byte(c.blue));
    proof {
        assert(out@ =~= spec_hex_code(*c));
    }
    out
}

/// The value of one hex digit, lower or upper case; sixteen when the byte is
/// no hex digit.
pub open spec fn spec_hex_val(b: u8) -> int {
    if 48 <= b <= 57 {
        b - 48
    } else if 97 <= b <= 102 {
        b - 87
    } else if 65 <= b <= 70 {
        b - 55
    } else {
        16
    }
}

fn hex_val(b: u8) -> (r: u8)
    ensures
        r as int == spec_hex_val(b),
{
    if 48 <= b && b <= 57 {
        b - 48
    } else if 97 <= b && b <= 102 {
        b - 87
    } else if 65 <= b && b <= 70 {
        b - 55
    } else {
        16
    }
}

/// A hex code without its optional leading `#`.
pub open spec fn spec_hex_body(s: Seq<u8>) -> Seq<u8> {
    if s.len() > 0 && s[0] == 35 {
        s.subrange(1, s.len() as int)
    } else {
        s
    }
}

/// Reads a `#rrggbb` or `rrggbb` code into a normalized color.
pub open spec fn spec_parse_hex(s: Seq<u8>) -> Option<Srgb> {
    let t = spec_hex_body(s);
    if t.len() == 6 && (forall|k: int| 0 <= k < 6 ==> spec_hex_val(#[trigger] t[k]) < 16) {
        Some(
            Srgb {
                red: spec_channel_from_byte((spec_hex_val(t[0]) * 16 + spec_hex_val(t[1])) as u8),
                green: spec_channel_from_byte((spec_hex_val(t[2]) * 16 + spec_hex_val(t[3])) as u8),
                blue: spec_channel_from_byte((spec_hex_val(t[4]) * 16 + spec_hex_val(t[5])) as u8),
            },
        )
    } else {
        None
    }
}

/// Parses a hex color code, with or without its leading `#`.
pub fn srgb_from_hex(s: &[u8]) -> (r: Option<Srgb>)
    ensures
        r == spec_parse_hex(s@),
        (r matches Some(c) ==> c.wf()),
{
    let skip: usize = if s.len() > 0 && s[0] == 35 {
        1
    } else {
        0
    };
    proof {
        if skip == 1 {
            assert(s@.subrange(1, s@.len() as int).len() == s@.len() - 1);
        }
    }
    if s.len() - skip != 6 {
        return None;
    }
    let ghost t = spec_hex_body(s@);
    proof {
        assert(forall|k: int| 0 <= k < 6 ==> t[k] == s@[skip + k]);
    }
    let d0 = hex_val(s[skip]);
    let d1 = hex_val(s[skip + 1]);
    let d2 = hex_val(s[skip + 2]);
    let d3 = hex_val(s[skip + 3]);
    let d4 = hex_val(s[skip + 4]);
    let d5 = hex_val(s[skip + 5]);
    if d0 > 15 || d1 > 15 || d2 > 15 || d3 > 15 || d4 > 15 || d5 > 15 {
        proof {
            assert(spec_hex_val(t[0]) == d0 && spec_hex_val(t[1]) == d1 && spec_hex_val(t[2])
                == d2 && spec_hex_val(t[3]) == d3 && spec_hex_val(t[4]) == d4 && spec_hex_val(
                t[5],
            ) == d5);
            let k0: int = if d0 > 15 {
                0
            } else if d1 > 15 {
                1
            } else if d2 > 15 {
                2
            } else if d3 > 15 {
                3
            } else if d4 > 15 {
                4
            } else {
                5
            };
            assert(spec_hex_val(t[k0]) >= 16);
            assert(!(forall|k: int| 0 <= k < 6 ==> spec_hex_val(#[trigger] t[k]) < 16));
            assert(spec_parse_hex(s@) is None);
        }
        return None;
    }
    Some(
        Srgb {
            red: channel_from_byte(d0 * 16 + d1),
            green: channel_from_byte(d2 * 16 + d3),
            blue: channel_from_byte(d4 * 16 + d5),
        },
    )
}

/// One color as a plugin template sees it: the hex code with and without its
/// `#`, and the three channels in thousandths.
#[derive(Clone, Debug, PartialEq)]
pub struct Color {
    pub hex: Vec<u8>,
    pub hex_stripped: Vec<u8>,
    pub red: i64,
    pub green: i64,
    pub blue: i64,
}

impl Color {
    /// Builds the record of one normalized color.
    pub fn from_srgb(c: &Srgb) -> (r: Color)
        requires
            c.wf(),
        ensures
            r.hex@ == spec_hex_code(*c),
            r.hex_stripped@ == spec_hex_code(*c).subrange(1, 7),
            r.red == c.red,
            r.green == c.green,
            r.blue == c.blue,
    {
        let hex = hex_code(c);
        let mut hex_stripped: Vec<u8> = Vec::new();
        let mut k: usize = 1;
        while k < 7
            invariant
                1 <= k <= 7,
                hex@ == spec_hex_code(*c),
                hex@.len() == 7,
                hex_stripped@ =~= hex@.subrange(1, k as int),
            decreases 7 - k,
        {
            hex_stripped.push(hex[k]);
            k = k + 1;
        }
        Color { hex, hex_stripped, red: c.red, green: c.green, blue: c.blue }
    }
}

/// A theme written with hex color codes, as the manual theme source carries
/// them; the palette, accents, foreground and background each hold one code.
pub fn theme_from_hex_colors(wallpaper: Option<Vec<u8>>, colors: &Colors<Vec<u8>>) -> (r: Option<
    Theme,
>)
    ensures
        (r is Some <==> spec_parse_hex(colors.palette.black@) is Some && spec_parse_hex(
            colors.palette.red@,
        ) is Some && spec_parse_hex(colors.palette.green@) is Some && spec_parse_hex(
            colors.palette.yellow@,
        ) is Some && spec_parse_hex(colors.palette.blue@) is Some && spec_parse_hex(
            colors.palette.purple@,
        ) is Some && spec_parse_hex(colors.palette.cyan@) is Some && spec_parse_hex(
            colors.palette.white@,
        ) is Some && spec_parse_hex(colors.foreground@) is Some && spec_parse_hex(
            colors.background@,
        ) is Some && (forall|k: int|
            0 <= k < colors.accents@.len() ==> spec_parse_hex(
                (#[trigger] colors.accents@[k])@,
            ) is Some)),
        (r matches Some(t) ==> t.wallpaper == wallpaper && t.colors.palette.black
            == spec_parse_hex(colors.palette.black@)->Some_0 && t.colors.palette.red
            == spec_parse_hex(colors.palette.red@)->Some_0 && t.colors.palette.green
            == spec_parse_hex(colors.palette.green@)->Some_0 && t.colors.palette.yellow
            == spec_parse_hex(colors.palette.yellow@)->Some_0 && t.colors.palette.blue
            == spec_parse_hex(colors.palette.blue@)->Some_0 && t.colors.palette.purple
            == spec_parse_hex(colors.palette.purple@)->Some_0 && t.colors.palette.cyan
            == spec_parse_hex(colors.palette.cyan@)->Some_0 && t.colors.palette.white
            == spec_parse_hex(colors.palette.white@)->Some_0 && t.colors.foreground
            == spec_parse_hex(colors.foreground@)->Some_0 && t.colors.background
            == spec_parse_hex(colors.background@)->Some_0 && t.colors.accents@.len()
            == colors.accents@.len() && (forall|k: int|
            0 <= k < colors.accents@.len() ==> #[trigger] t.colors.accents@[k] == spec_parse_hex(
                colors.accents@[k]@,
            )->Some_0)),
{
    let black = match srgb_from_hex(colors.palette.black.as_slice()) {
        Some(c) => c,
        None => {
            return None;
        },
    };
    let red = match srgb_from_hex(colors.palette.red.as_slice()) {
        Some(c) => c,
        None => {
            return None;
        },
    };
    let green = match srgb_from_hex(colors.palette.green.as_slice()) {
        Some(c) => c,
        None => {
            return None;
        },
    };
    let yellow = match srgb_from_hex(colors.palette.yellow.as_slice()) {
        Some(c) => c,
        None => {
            return None;
        },
    };
    let blue = match srgb_from_hex(colors.palette.blue.as_slice()) {
        Some(c) => c,
        None => {
            return None;
        },
    };
    let purple = match srgb_from_hex(colors.palette.purple.as_slice()) {
        Some(c) => c,
        None => {
            return None;
        },
    };
    let cyan = match srgb_from_hex(colors.palette.cyan.as_slice()) {
        Some(c) => c,
        None => {
            return None;
        },
    };
    let white = match srgb_from_hex(colors.palette.white.as_slice()) {
        Some(c) => c,
        None => {
            return None;
        },
    };
    let foreground = match srgb_from_hex(colors.foreground.as_slice()) {
        Some(c) => c,
        None => {
            return None;
        },
    };
    let background = match srgb_from_hex(colors.background.as_slice()) {
        Some(c) => c,
        None => {
            return None;
        },
    };
    let mut accents: Vec<Srgb> = Vec::new();
    let n = colors.accents.len();
    let mut k: usize = 0;
    while k < n
        invariant
            k <= n,
            n == colors.accents@.len(),
            accents@.len() == k,
            forall|j: int| 0 <= j < k ==> spec_parse_hex((#[trigger] colors.accents@[j])@) is Some,
            forall|j: int|
                0 <= j < k ==> #[trigger] accents@[j] == spec_parse_hex(
                    colors.accents@[j]@,
                )->Some_0,
        decreases n - k,
    {
        let c = match srgb_from_hex(colors.accents[k].as_slice()) {
            Some(c) => c,
            None => {
                return None;
            },
        };
        accents.push(c);
        k = k + 1;
    }
    Some(
        Theme {
            wallpaper,
            colors: Colors {
                palette: Palette { black, red, green, yellow, blue, purple, cyan, white },
                accents,
                foreground,
                background,
            },
        },
    )
}

} // verus!
