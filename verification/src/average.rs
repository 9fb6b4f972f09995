//! The perceptual averager: reduces one bucket of colors to a single
//! representative by taking the arithmetic mean in Lab space. The sum is an
//! associative, commutative fold, so it is computed as a parallel map-reduce
//! over disjoint chunks; the division by the count happens exactly once.

use vstd::prelude::*;

use crate::color::{Lab, LAB_LIMIT};
use rayon::iter::IntoParallelRefIterator;
use rayon::iter::ParallelIterator;

verus! {

/// More samples than any address space holds; counts never pass it.
pub const MAX_COUNT: i128 = 0x1_0000_0000_0000_0000;

/// The sum of the `l` components of a sequence of Lab colors.
pub open spec fn sum_l(s: Seq<Lab>) -> int
    decreases s.len(),
{
    if s.len() == 0 {
        0
    } else {
        sum_l(s.drop_last()) + s.last().l
    }
}

/// The sum of the `a` components of a sequence of Lab colors.
pub open spec fn sum_a(s: Seq<Lab>) -> int
    decreases s.len(),
{
    if s.len() == 0 {
        0
    } else {
        sum_a(s.drop_last()) + s.last().a
    }
}

/// The sum of the `b` components of a sequence of Lab colors.
pub open spec fn sum_b(s: Seq<Lab>) -> int
    decreases s.len(),
{
    if s.len() == 0 {
        0
    } else {
        sum_b(s.drop_last()) + s.last().b
    }
}

/// Division that rounds toward zero, as the machine division of signed
/// integers does.
pub open spec fn div_toward_zero(a: int, b: int) -> int {
    if a >= 0 {
        a / b
    } else {
        -((-a) / b)
    }
}

/// The componentwise mean of a non-empty sequence of Lab colors.
pub open spec fn spec_centroid(s: Seq<Lab>) -> Lab {
    Lab {
        l: div_toward_zero(sum_l(s), s.len() as int) as i64,
        a: div_toward_zero(sum_a(s), s.len() as int) as i64,
        b: div_toward_zero(sum_b(s), s.len() as int) as i64,
    }
}

/// A partial sum over one chunk of a bucket: componentwise Lab totals and the
/// number of samples summed.
#[derive(Clone, Copy, Debug, PartialEq, Eq, Structural)]
pub struct LabSum {
    pub l: i128,
    pub a: i128,
    pub b: i128,
    pub n: i128,
}

impl LabSum {
    /// Totals of `n` well-formed colors stay within `n` times the component
    /// bound.
    pub open spec fn wf(self) -> bool {
        &&& 0 <= self.n <= MAX_COUNT
        &&& -self.n * LAB_LIMIT <= self.l <= self.n * LAB_LIMIT
        &&& -self.n * LAB_LIMIT <= self.a <= self.n * LAB_LIMIT
        &&& -self.n * LAB_LIMIT <= self.b <= self.n * LAB_LIMIT
    }
}

/// The sum of no samples: the identity of `lab_sum_add`.
fn lab_sum_zero() -> (r: LabSum)
    ensures
        r == (LabSum { l: 0, a: 0, b: 0, n: 0 }),
        r.wf(),
{
    LabSum { l: 0, a: 0, b: 0, n: 0 }
}

/// The sum of a single sample.
fn lab_sum_unit(c: &Lab) -> (r: LabSum)
    requires
        c.wf(),
    ensures
        r.l == c.l && r.a == c.a && r.b == c.b && r.n == 1,
        r.wf(),
{
    LabSum { l: c.l as i128, a: c.a as i128, b: c.b as i128, n: 1 }
}

/// Combines two partial sums. Associative and commutative, with
/// `lab_sum_zero` as identity.
fn lab_sum_add(x: LabSum, y: LabSum) -> (r: LabSum)
    requires
        x.wf(),
        y.wf(),
        x.n + y.n <= MAX_COUNT,
    ensures
        r.l == x.l + y.l && r.a == x.a + y.a && r.b == x.b + y.b && r.n == x.n + y.n,
        r.wf(),
{
    proof {
        lemma_sum_bound_adds(x.n as int, y.n as int, x.l as int, y.l as int);
        lemma_sum_bound_adds(x.n as int, y.n as int, x.a as int, y.a as int);
        lemma_sum_bound_adds(x.n as int, y.n as int, x.b as int, y.b as int);
    }
    LabSum { l: x.l + y.l, a: x.a + y.a, b: x.b + y.b, n: x.n + y.n }
}

/// Two component totals within their counts' bounds add to a total within
/// the combined count's bound.
proof fn lemma_sum_bound_adds(n1: int, n2: int, v1: int, v2: int)
    requires
        0 <= n1,
        0 <= n2,
        -n1 * LAB_LIMIT <= v1 <= n1 * LAB_LIMIT,
        -n2 * LAB_LIMIT <= v2 <= n2 * LAB_LIMIT,
    ensures
        -(n1 + n2) * LAB_LIMIT <= v1 + v2 <= (n1 + n2) * LAB_LIMIT,
{
    assert((n1 + n2) * LAB_LIMIT == n1 * LAB_LIMIT + n2 * LAB_LIMIT) by (nonlinear_arith);
}

/// Relies on rayon's `par_iter`, `map` and `reduce`: `lab_sum_add` is
/// associative and commutative and `lab_sum_zero` is its identity, so the
/// parallel reduction over chunks, in whatever tree rayon picks, equals the
/// sequential componentwise sum (rayon documents that `reduce` is
/// deterministic for an associative operation with a true identity).
#[verifier::external_body]
fn par_lab_sum(labs: &Vec<Lab>) -> (r: LabSum)
    requires
        forall|i: int| 0 <= i < labs@.len() ==> labs@[i].wf(),
        labs@.len() <= MAX_COUNT,
    ensures
        r.n == labs@.len(),
        r.l == sum_l(labs@),
        r.a == sum_a(labs@),
        r.b == sum_b(labs@),
{
    labs.par_iter().map(lab_sum_unit).reduce(lab_sum_zero, lab_sum_add)
}

/// A sequence of well-formed colors has componentwise sums within
/// `len * LAB_LIMIT`.
proof fn lemma_sums_bounded(s: Seq<Lab>)
    requires
        forall|i: int| 0 <= i < s.len() ==> s[i].wf(),
    ensures
        -s.len() * LAB_LIMIT <= sum_l(s) <= s.len() * LAB_LIMIT,
        -s.len() * LAB_LIMIT <= sum_a(s) <= s.len() * LAB_LIMIT,
        -s.len() * LAB_LIMIT <= sum_b(s) <= s.len() * LAB_LIMIT,
    decreases s.len(),
{
    if s.len() > 0 {
        lemma_sums_bounded(s.drop_last());
        assert(s.last().wf());
        lemma_sum_bound_adds(s.len() - 1, 1, sum_l(s.drop_last()), s.last().l as int);
        lemma_sum_bound_adds(s.len() - 1, 1, sum_a(s.drop_last()), s.last().a as int);
        lemma_sum_bound_adds(s.len() - 1, 1, sum_b(s.drop_last()), s.last().b as int);
    }
}

/// A total bounded by `n` times the component bound divides (toward zero) to
/// a value within the component bound.
proof fn lemma_div_within_limit(a: int, n: int)
    requires
        0 < n,
        -n * LAB_LIMIT <= a <= n * LAB_LIMIT,
    ensures
        -LAB_LIMIT <= div_toward_zero(a, n) <= LAB_LIMIT,
{
    if a >= 0 {
        assert(a / n <= LAB_LIMIT && a / n >= 0) by (nonlinear_arith)
            requires
                0 < n,
                0 <= a <= n * LAB_LIMIT,
        ;
    } else {
        assert((-a) / n <= LAB_LIMIT && (-a) / n >= 0) by (nonlinear_arith)
            requires
                0 < n,
                0 <= -a <= n * LAB_LIMIT,
        ;
    }
}

/// The Lab-centroid averaging strategy: the mean of the bucket in Lab space,
/// or nothing when the bucket is empty. Emptiness is the only failure mode
/// and is a signal, not an error; the generator recovers it by extrapolation.
pub fn lab_centroid(labs: &Vec<Lab>) -> (r: Option<Lab>)
    requires
        forall|i: int| 0 <= i < labs@.len() ==> labs@[i].wf(),
    ensures
        r is Some <==> labs@.len() > 0,
        labs@.len() > 0 ==> r == Some(spec_centroid(labs@)),
        labs@.len() > 0 ==> spec_centroid(labs@).wf(),
{
    if labs.len() == 0 {
        return None;
    }
    proof {
        assert(labs@.len() <= MAX_COUNT);
    }
    let s = par_lab_sum(labs);
    proof {
        lemma_sums_bounded(labs@);
        lemma_div_within_limit(s.l as int, s.n as int);
        lemma_div_within_limit(s.a as int, s.n as int);
        lemma_div_within_limit(s.b as int, s.n as int);
    }
    let l = s.l / s.n;
    let a = s.a / s.n;
    let b = s.b / s.n;
    Some(Lab { l: l as i64, a: a as i64, b: b as i64 })
}

/// The closed set of averaging strategies; one member today, designed to
/// admit future variants without changing callers.
#[derive(Clone, Copy, Debug, PartialEq, Eq, Hash, Structural)]
pub enum AverageMethod {
    LabCentroid,
}

impl AverageMethod {
    /// Runs the chosen strategy over one bucket.
    pub fn average(&self, labs: &Vec<Lab>) -> (r: Option<Lab>)
        requires
            forall|i: int| 0 <= i < labs@.len() ==> labs@[i].wf(),
        ensures
            r is Some <==> labs@.len() > 0,
            labs@.len() > 0 ==> r == Some(spec_centroid(labs@)),
            labs@.len() > 0 ==> spec_centroid(labs@).wf(),
    {
        match self {
            Self::LabCentroid => lab_centroid(labs),
        }
    }
}

/// The componentwise sums of a two-element sequence, written out.
proof fn lemma_sum_pair(x: Lab, y: Lab)
    ensures
        sum_l(seq![x, y]) == x.l + y.l,
        sum_a(seq![x, y]) == x.a + y.a,
        sum_b(seq![x, y]) == x.b + y.b,
{
    let s = seq![x, y];
    assert(s.last() == y);
    assert(s.drop_last() =~= seq![x]);
    assert(seq![x].last() == x);
    assert(seq![x].drop_last() =~= Seq::<Lab>::empty());
    assert(sum_l(Seq::<Lab>::empty()) == 0);
    assert(sum_a(Seq::<Lab>::empty()) == 0);
    assert(sum_b(Seq::<Lab>::empty()) == 0);
    assert(sum_l(seq![x]) == x.l);
    assert(sum_a(seq![x]) == x.a);
    assert(sum_b(seq![x]) == x.b);
}

/// Removing one element takes exactly its contribution out of each sum.
proof fn lemma_sum_remove(s: Seq<Lab>, j: int)
    requires
        0 <= j < s.len(),
    ensures
        sum_l(s.remove(j)) == sum_l(s) - s[j].l,
        sum_a(s.remove(j)) == sum_a(s) - s[j].a,
        sum_b(s.remove(j)) == sum_b(s) - s[j].b,
    decreases s.len(),
{
    if j == s.len() - 1 {
        assert(s.remove(j) =~= s.drop_last());
    } else {
        lemma_sum_remove(s.drop_last(), j);
        assert(s.remove(j).drop_last() =~= s.drop_last().remove(j));
        assert(s.remove(j).last() == s.last());
    }
}

/// Sequences with the same elements, in any order, have the same sums.
proof fn lemma_sums_order_invariant(s1: Seq<Lab>, s2: Seq<Lab>)
    requires
        s1.to_multiset() == s2.to_multiset(),
    ensures
        s1.len() == s2.len(),
        sum_l(s1) == sum_l(s2),
        sum_a(s1) == sum_a(s2),
        sum_b(s1) == sum_b(s2),
    decreases s1.len(),
{
    broadcast use vstd::seq_lib::group_to_multiset_ensures;

    s1.to_multiset_ensures();
    s2.to_multiset_ensures();
    assert(s1.len() == s1.to_multiset().len());
    assert(s2.len() == s2.to_multiset().len());
    if s1.len() == 0 {
        assert(s2.len() == 0);
    } else {
        let x = s1.last();
        assert(s1.to_multiset().count(x) > 0) by {
            assert(s1.contains(x));
        }
        assert(s2.contains(x));
        let j = choose|j: int| 0 <= j < s2.len() && s2[j] == x;
        assert(s1.remove(s1.len() - 1).to_multiset() =~= s1.to_multiset().remove(x));
        assert(s2.remove(j).to_multiset() =~= s2.to_multiset().remove(x));
        assert(s1.remove(s1.len() - 1) =~= s1.drop_last());
        lemma_sums_order_invariant(s1.drop_last(), s2.remove(j));
        lemma_sum_remove(s2, j);
    }
}

/// The centroid does not depend on the order of the bucket: reducing a
/// reordering of the same colors gives the same mean.
pub proof fn lemma_centroid_order_invariant(s1: Seq<Lab>, s2: Seq<Lab>)
    requires
        s1.to_multiset() == s2.to_multiset(),
    ensures
        spec_centroid(s1) == spec_centroid(s2),
{
    lemma_sums_order_invariant(s1, s2);
}

/// Averaging two identical colors returns that color unchanged.
pub proof fn lemma_centroid_identity(c: Lab)
    requires
        c.wf(),
    ensures
        spec_centroid(seq![c, c]) == c,
{
    let s = seq![c, c];
    lemma_sum_pair(c, c);
    assert(sum_l(s) == 2 * c.l);
    assert(sum_a(s) == 2 * c.a);
    assert(sum_b(s) == 2 * c.b);
    lemma_double_halves(c.l as int);
    lemma_double_halves(c.a as int);
    lemma_double_halves(c.b as int);
}

/// Averaging two colors returns the arithmetic mean of each component.
pub proof fn lemma_centroid_midpoint(c1: Lab, c2: Lab)
    requires
        c1.wf(),
        c2.wf(),
    ensures
        spec_centroid(seq![c1, c2]).l == div_toward_zero(c1.l + c2.l, 2),
        spec_centroid(seq![c1, c2]).a == div_toward_zero(c1.a + c2.a, 2),
        spec_centroid(seq![c1, c2]).b == div_toward_zero(c1.b + c2.b, 2),
{
    let s = seq![c1, c2];
    lemma_sum_pair(c1, c2);
    assert(sum_l(s) == c1.l + c2.l);
    assert(sum_a(s) == c1.a + c2.a);
    assert(sum_b(s) == c1.b + c2.b);
    lemma_sums_bounded(s);
    lemma_div_within_limit(sum_l(s), 2);
    lemma_div_within_limit(sum_a(s), 2);
    lemma_div_within_limit(sum_b(s), 2);
}

/// Twice a value, divided toward zero by two, is the value again.
proof fn lemma_double_halves(v: int)
    ensures
        div_toward_zero(2 * v, 2) == v,
{
    if 2 * v >= 0 {
        vstd::arithmetic::div_mod::lemma_div_multiples_vanish(v, 2);
    } else {
        vstd::arithmetic::div_mod::lemma_div_multiples_vanish(-v, 2);
    }
}

} // verus!
