//! Fixed-point color values and the `Region` acceptance test.
//!
//! A color component stores thousandths of its natural unit: an sRGB channel
//! or a saturation/lightness of `1.0` is `1000`, a hue of `345.5` degrees is
//! `345_500`. Hue lives on a circle of `360_000` thousandths of a degree.

use vstd::prelude::*;

use crate::mod_arith;

verus! {

/// Thousandths per natural unit.
pub const SCALE: i64 = 1000;

/// The hue circle, in thousandths of a degree.
pub const HUE_MODULUS: i64 = 360000;

/// A bound on the magnitude of any Lab component the library works with:
/// one thousand natural units, in thousandths. Real Lab values stay within
/// one hundred and change; the slack keeps arithmetic bounds simple.
pub const LAB_LIMIT: i64 = 1000000;

/// A non-linear sRGB color; each channel holds thousandths, nominally in
/// `[0, 1000]`.
#[derive(Clone, Copy, Debug, PartialEq, Eq, Hash, Structural)]
pub struct Srgb {
    pub red: i64,
    pub green: i64,
    pub blue: i64,
}

impl Srgb {
    /// All channels within the normalized range.
    pub open spec fn wf(self) -> bool {
        &&& 0 <= self.red <= SCALE
        &&& 0 <= self.green <= SCALE
        &&& 0 <= self.blue <= SCALE
    }

    pub fn new(red: i64, green: i64, blue: i64) -> (c: Self)
        ensures
            c == (Srgb { red, green, blue }),
    {
        Self { red, green, blue }
    }
}

/// A color as hue, saturation and lightness; hue in thousandths of a degree,
/// the others in thousandths of `1`.
#[derive(Clone, Copy, Debug, PartialEq, Eq, Hash, Structural)]
pub struct Hsl {
    pub hue: i64,
    pub saturation: i64,
    pub lightness: i64,
}

impl Hsl {
    pub fn new(hue: i64, saturation: i64, lightness: i64) -> (c: Self)
        ensures
            c == (Hsl { hue, saturation, lightness }),
    {
        Self { hue, saturation, lightness }
    }
}

/// A color in the perceptually uniform Lab space, in thousandths:
/// `l` is nominally in `[0, 100_000]`, `a` and `b` around `[-128_000, 128_000]`.
#[derive(Clone, Copy, Debug, PartialEq, Eq, Hash, Structural)]
pub struct Lab {
    pub l: i64,
    pub a: i64,
    pub b: i64,
}

impl Lab {
    /// Components bounded by `LAB_LIMIT`, so that sums over any count of
    /// samples fit comfortably in 128 bits.
    pub open spec fn wf(self) -> bool {
        &&& -LAB_LIMIT <= self.l <= LAB_LIMIT
        &&& -LAB_LIMIT <= self.a <= LAB_LIMIT
        &&& -LAB_LIMIT <= self.b <= LAB_LIMIT
    }

    pub fn new(l: i64, a: i64, b: i64) -> (c: Self)
        ensures
            c == (Lab { l, a, b }),
    {
        Self { l, a, b }
    }

    /// Each component forced into `[-LAB_LIMIT, LAB_LIMIT]`; the identity on
    /// every well-formed value.
    pub fn clamped(self) -> (c: Self)
        ensures
            c == self.spec_clamped(),
            c.wf(),
            self.wf() ==> c == self,
    {
        Self {
            l: clamp_component(self.l),
            a: clamp_component(self.a),
            b: clamp_component(self.b),
        }
    }

    pub open spec fn spec_clamped(self) -> Lab {
        Lab {
            l: spec_clamp_component(self.l),
            a: spec_clamp_component(self.a),
            b: spec_clamp_component(self.b),
        }
    }
}

pub open spec fn spec_clamp_component(v: i64) -> i64 {
    if v < -LAB_LIMIT {
        (-LAB_LIMIT) as i64
    } else if v > LAB_LIMIT {
        LAB_LIMIT
    } else {
        v
    }
}

fn clamp_component(v: i64) -> (r: i64)
    ensures
        r == spec_clamp_component(v),
{
    if v < -LAB_LIMIT {
        -LAB_LIMIT
    } else if v > LAB_LIMIT {
        LAB_LIMIT
    } else {
        v
    }
}

/// One input color, carried in the two representations the engine reads:
/// hue/saturation/lightness for the region test and Lab for averaging.
#[derive(Clone, Copy, Debug, PartialEq, Eq, Structural)]
pub struct Sample {
    pub hsl: Hsl,
    pub lab: Lab,
}

/// One bucket's acceptance test: a circular hue interval plus closed
/// saturation and lightness intervals. A pure predicate; regions need not be
/// mutually exclusive nor collectively exhaustive.
#[derive(Clone, Copy, Debug)]
pub struct Region {
    pub hue: mod_arith::Range,
    pub saturation: (i64, i64),
    pub lightness: (i64, i64),
}

/// The modular space that hue values live in.
pub open spec fn hue_space() -> mod_arith::Space {
    mod_arith::Space { modulus: HUE_MODULUS }
}

impl Region {
    /// The hue range lives on the hue circle and is canonically stored.
    pub open spec fn wf(self) -> bool {
        &&& self.hue.wf()
        &&& self.hue.spec_space().modulus == HUE_MODULUS
    }

    pub open spec fn spec_contains(self, c: Hsl) -> bool {
        &&& self.hue.spec_contains(c.hue as int)
        &&& self.saturation.0 <= c.saturation <= self.saturation.1
        &&& self.lightness.0 <= c.lightness <= self.lightness.1
    }

    /// Builds a region from a hue interval (in thousandths of a degree,
    /// swept forward from the first bound to the second, wrapping past 360
    /// degrees if needed) and closed saturation and lightness intervals.
    pub fn new(hue: (i64, i64), saturation: (i64, i64), lightness: (i64, i64)) -> (r: Self)
        ensures
            r.wf(),
            r.hue.spec_start() == hue_space().spec_modulo(hue.0 as int),
            r.hue.spec_length() == hue_space().spec_dist_pos(hue.0 as int, hue.1 as int),
            r.saturation == saturation,
            r.lightness == lightness,
    {
        let space = mod_arith::Space::new(HUE_MODULUS);
        Self { hue: space.range(hue.0, hue.1), saturation, lightness }
    }

    pub fn contains(&self, c: &Hsl) -> (r: bool)
        requires
            self.wf(),
        ensures
            r == self.spec_contains(*c),
    {
        self.hue.contains(c.hue) && self.saturation.0 <= c.saturation && c.saturation
            <= self.saturation.1 && self.lightness.0 <= c.lightness && c.lightness
            <= self.lightness.1
    }

    /// The corner of the region where the hue range begins, at the lower
    /// saturation and lightness bounds.
    pub fn start(&self) -> (c: Hsl)
        ensures
            c.hue == self.hue.spec_start(),
            c.saturation == self.saturation.0,
            c.lightness == self.lightness.0,
    {
        Hsl { hue: self.hue.start(), saturation: self.saturation.0, lightness: self.lightness.0 }
    }

    /// The corner of the region where the hue range ends, at the upper
    /// saturation and lightness bounds.
    pub fn end(&self) -> (c: Hsl)
        requires
            self.wf(),
        ensures
            c.hue == hue_space().spec_modulo(self.hue.spec_start() + self.hue.spec_length()),
            c.saturation == self.saturation.1,
            c.lightness == self.lightness.1,
    {
        let s = self.hue.start();
        let len = self.hue.length();
        let end_hue = if s < HUE_MODULUS - len {
            proof {
                vstd::arithmetic::div_mod::lemma_small_mod(
                    (s + len) as nat,
                    HUE_MODULUS as nat,
                );
            }
            s + len
        } else {
            proof {
                lemma_wrap_once(s as int, len as int, HUE_MODULUS as int);
            }
            s + len - HUE_MODULUS
        };
        Hsl { hue: end_hue, saturation: self.saturation.1, lightness: self.lightness.1 }
    }
}

/// When a sum of two values in `[0, m)` passes `m`, subtracting `m` once
/// gives its canonical representative.
proof fn lemma_wrap_once(s: int, len: int, m: int)
    requires
        0 < m,
        0 <= s < m,
        0 <= len < m,
        s + len >= m,
    ensures
        (s + len) % m == s + len - m,
{
    vstd::arithmetic::div_mod::lemma_small_mod((s + len - m) as nat, m as nat);
    vstd::arithmetic::div_mod::lemma_mod_add_multiples_vanish(s + len - m, m);
}

} // verus!
