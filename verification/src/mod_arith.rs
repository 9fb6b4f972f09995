//! Arithmetic on a cyclic numeric domain (a "modular space"), and ranges that
//! sweep forward through it, possibly wrapping past the modulus back to zero.
//! Hue is such a quantity: a range from 345 to 15 degrees wraps through 0.

use vstd::prelude::*;

verus! {

/// A cyclic numeric domain of size `modulus`.
#[derive(Clone, Copy, Debug, PartialEq, Eq, Structural)]
pub struct Space {
    pub modulus: i64,
}

impl Space {
    /// The canonical representative of `n` in `[0, modulus)`; this is the
    /// mathematical (Euclidean) remainder, total for negative `n` as well.
    pub open spec fn spec_modulo(self, n: int) -> int {
        n % (self.modulus as int)
    }

    /// The non-negative forward distance from `a` to `b`, travelling in the
    /// increasing direction: the unique `d` in `[0, modulus)` with
    /// `a + d == b (mod modulus)`.
    pub open spec fn spec_dist_pos(self, a: int, b: int) -> int {
        (b - a) % (self.modulus as int)
    }

    pub fn new(modulus: i64) -> (s: Self)
        ensures
            s.modulus == modulus,
    {
        Self { modulus }
    }

    /// Maps any value into `[0, modulus)`.
    pub fn modulo(&self, n: i64) -> (r: i64)
        requires
            0 < self.modulus,
        ensures
            r == self.spec_modulo(n as int),
            0 <= r < self.modulus,
    {
        let t: i64 = n % self.modulus;
        proof {
            lemma_truncated_to_euclidean(n as int, self.modulus as int);
        }
        if t < 0 {
            t + self.modulus
        } else {
            t
        }
    }

    /// The forward distance from `n1` to `n2` in `[0, modulus)`.
    pub fn dist_pos(&self, n1: i64, n2: i64) -> (r: i64)
        requires
            0 < self.modulus,
        ensures
            r == self.spec_dist_pos(n1 as int, n2 as int),
            0 <= r < self.modulus,
    {
        let a = self.modulo(n1);
        let b = self.modulo(n2);
        let d: i64 = b - a;
        proof {
            vstd::arithmetic::div_mod::lemma_sub_mod_noop(n2 as int, n1 as int, self.modulus as int);
            lemma_cyclic_shift(d as int, self.modulus as int);
        }
        if d < 0 {
            d + self.modulus
        } else {
            d
        }
    }

    /// The range that starts at `start` and sweeps forward to `end`.
    pub fn range(&self, start: i64, end: i64) -> (r: Range)
        requires
            0 < self.modulus,
        ensures
            r.wf(),
            r.spec_space() == *self,
            r.spec_start() == self.spec_modulo(start as int),
            r.spec_length() == self.spec_dist_pos(start as int, end as int),
    {
        Range::new(*self, start, end)
    }
}

/// Rust's `%` rounds toward zero, so for a negative dividend it differs from
/// the mathematical (Euclidean) remainder by exactly one modulus.
proof fn lemma_truncated_to_euclidean(x: int, m: int)
    requires
        0 < m,
    ensures
        x < 0 && (-x) % m == 0 ==> x % m == 0,
        x < 0 && (-x) % m != 0 ==> x % m == m - (-x) % m,
{
    if x < 0 {
        let u = (-x) % m;
        let q = (-x) / m;
        vstd::arithmetic::div_mod::lemma_fundamental_div_mod(-x, m);
        vstd::arithmetic::div_mod::lemma_mod_bound(-x, m);
        if u == 0 {
            assert(x == (-q) * m + 0) by (nonlinear_arith)
                requires
                    -x == q * m + u,
                    u == 0,
            ;
            vstd::arithmetic::div_mod::lemma_fundamental_div_mod_converse_mod(x, m, -q, 0);
        } else {
            assert(x == (-q - 1) * m + (m - u)) by (nonlinear_arith)
                requires
                    -x == q * m + u,
            ;
            vstd::arithmetic::div_mod::lemma_fundamental_div_mod_converse_mod(x, m, -q - 1, m - u);
        }
    }
}

/// For `d` strictly between `-m` and `m`, the Euclidean remainder of `d` is
/// `d` itself when non-negative and `d + m` otherwise.
proof fn lemma_cyclic_shift(d: int, m: int)
    requires
        0 < m,
        -m < d < m,
    ensures
        d % m == if d < 0 { d + m } else { d },
{
    if d < 0 {
        vstd::arithmetic::div_mod::lemma_small_mod((d + m) as nat, m as nat);
        vstd::arithmetic::div_mod::lemma_mod_add_multiples_vanish(d, m);
    } else {
        vstd::arithmetic::div_mod::lemma_small_mod(d as nat, m as nat);
    }
}

/// Reducing the left operand of a difference before taking the remainder does
/// not change the remainder: `x % m` is congruent to `x`.
proof fn lemma_mod_noop_sub_left(x: int, y: int, m: int)
    requires
        0 < m,
    ensures
        (x % m - y) % m == (x - y) % m,
{
    vstd::arithmetic::div_mod::lemma_sub_mod_noop(x, y, m);
    vstd::arithmetic::div_mod::lemma_sub_mod_noop(x % m, y, m);
    vstd::arithmetic::div_mod::lemma_mod_twice(x, m);
}

/// The interval of a modular space that begins at `start` (stored in
/// canonical form) and sweeps `length` units in the increasing direction.
/// A `length` of zero means the whole circle: every point is contained.
#[derive(Clone, Copy, Debug, PartialEq, Eq, Structural)]
pub struct Range {
    pub space: Space,
    start: i64,
    length: i64,
}

impl Range {
    pub closed spec fn spec_space(self) -> Space {
        self.space
    }

    pub closed spec fn spec_start(self) -> int {
        self.start as int
    }

    pub closed spec fn spec_length(self) -> int {
        self.length as int
    }

    /// The stored start and length are canonical: both already reduced into
    /// `[0, modulus)`. `new` establishes this and nothing ever changes it.
    pub open spec fn wf(self) -> bool {
        &&& 0 < self.spec_space().modulus
        &&& 0 <= self.spec_start() < self.spec_space().modulus
        &&& 0 <= self.spec_length() < self.spec_space().modulus
    }

    /// What it means for a point to lie in a range: either the range has
    /// length zero (the full circle), or the forward distance from the start
    /// to the point does not exceed the length.
    pub open spec fn spec_contains(self, n: int) -> bool {
        ||| self.spec_length() == 0
        ||| self.spec_space().spec_dist_pos(self.spec_start(), n) <= self.spec_length()
    }

    pub fn new(space: Space, start: i64, end: i64) -> (r: Self)
        requires
            0 < space.modulus,
        ensures
            r.wf(),
            r.spec_space() == space,
            r.spec_start() == space.spec_modulo(start as int),
            r.spec_length() == space.spec_dist_pos(start as int, end as int),
    {
        Self { space, start: space.modulo(start), length: space.dist_pos(start, end) }
    }

    pub fn start(&self) -> (r: i64)
        ensures
            r == self.spec_start(),
    {
        self.start
    }

    pub fn length(&self) -> (r: i64)
        ensures
            r == self.spec_length(),
    {
        self.length
    }

    pub fn contains(&self, n: i64) -> (r: bool)
        requires
            0 < self.spec_space().modulus,
        ensures
            r == self.spec_contains(n as int),
    {
        let p = self.space.modulo(n);
        proof {
            lemma_mod_noop_sub_left(n as int, self.spec_start(), self.spec_space().modulus as int);
        }
        self.length == 0 || self.space.dist_pos(self.start, p) <= self.length
    }

    /// A range of length zero contains every point.
    pub proof fn lemma_full_circle(self, n: int)
        requires
            self.spec_length() == 0,
        ensures
            self.spec_contains(n),
    {
    }
}

} // verus!
