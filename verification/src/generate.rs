//! The generator: partitions the input samples into the eight named buckets,
//! reduces each bucket to one color with the perceptual averager,
//! extrapolates a color for empty buckets from the region's corners, ranks
//! the six accents by descending bucket population, and selects foreground
//! and background.

use vstd::prelude::*;
use vstd::multiset::Multiset;

use crate::average::{div_toward_zero, spec_centroid, sum_a, sum_b, sum_l, AverageMethod};
use crate::color::{Hsl, Lab, Region, Sample};
use crate::theme::{Colors, Palette};
use rayon::iter::IntoParallelRefIterator;
use rayon::iter::ParallelIterator;

verus! {

/// The caller's stated preference for a dark or a light theme; absent, the
/// choice falls to the black and white buckets' populations.
#[derive(Clone, Copy, Debug, PartialEq, Eq, Hash, Structural)]
pub enum ModePreference {
    Dark,
    Light,
}

/// The bytes of the word "dark".
pub open spec fn dark_name() -> Seq<u8> {
    seq![100u8, 97u8, 114u8, 107u8]
}

/// The bytes of the word "light".
pub open spec fn light_name() -> Seq<u8> {
    seq![108u8, 105u8, 103u8, 104u8, 116u8]
}

impl ModePreference {
    /// Reads a preference from its textual name: "dark" or "light".
    pub fn parse(s: &[u8]) -> (r: Option<ModePreference>)
        ensures
            r == Some(ModePreference::Dark) <==> s@ =~= dark_name(),
            r == Some(ModePreference::Light) <==> s@ =~= light_name(),
    {
        if s.len() == 4 && s[0] == 100 && s[1] == 97 && s[2] == 114 && s[3] == 107 {
            proof {
                assert(s@ =~= dark_name());
            }
            Some(ModePreference::Dark)
        } else if s.len() == 5 && s[0] == 108 && s[1] == 105 && s[2] == 103 && s[3] == 104
            && s[4] == 116 {
            proof {
                assert(s@ =~= light_name());
            }
            Some(ModePreference::Light)
        } else {
            None
        }
    }
}

/// A region stated as plain interval bounds, the form a configuration file
/// carries; hue in thousandths of a degree, the rest in thousandths of one.
#[derive(Clone, Copy, Debug)]
pub struct RegionConfig {
    pub hue: (i64, i64),
    pub saturation: (i64, i64),
    pub lightness: (i64, i64),
}

impl RegionConfig {
    /// The region this configuration describes.
    pub fn to_region(&self) -> (r: Region)
        ensures
            r.wf(),
            r.hue.spec_start() == crate::color::hue_space().spec_modulo(self.hue.0 as int),
            r.hue.spec_length() == crate::color::hue_space().spec_dist_pos(
                self.hue.0 as int,
                self.hue.1 as int,
            ),
            r.saturation == self.saturation,
            r.lightness == self.lightness,
    {
        Region::new(self.hue, self.saturation, self.lightness)
    }
}

/// The canonical region set: black is any sufficiently dark color, white any
/// sufficiently light and unsaturated one, and the six color slots are
/// wedges of the hue wheel at mid saturation and lightness. The wedges leave
/// gaps by design: a color outside every region degrades per bucket.
pub open spec fn spec_default_regions() -> Palette<RegionConfig> {
    Palette {
        black: RegionConfig { hue: (0, 360000), saturation: (0, 1000), lightness: (0, 100) },
        red: RegionConfig { hue: (345000, 15000), saturation: (500, 1000), lightness: (100, 900) },
        green: RegionConfig { hue: (90000, 150000), saturation: (500, 1000), lightness: (100, 900) },
        yellow: RegionConfig { hue: (45000, 75000), saturation: (500, 1000), lightness: (100, 900) },
        blue: RegionConfig { hue: (210000, 255000), saturation: (500, 1000), lightness: (100, 900) },
        purple: RegionConfig {
            hue: (270000, 300000),
            saturation: (500, 1000),
            lightness: (100, 900),
        },
        cyan: RegionConfig { hue: (165000, 195000), saturation: (500, 1000), lightness: (100, 900) },
        white: RegionConfig { hue: (0, 360000), saturation: (0, 500), lightness: (900, 1000) },
    }
}

impl Default for Palette<RegionConfig> {
    /// The canonical region configuration.
    fn default() -> (r: Self)
        ensures
            r == spec_default_regions(),
    {
        Palette {
            black: RegionConfig { hue: (0, 360000), saturation: (0, 1000), lightness: (0, 100) },
            red: RegionConfig {
                hue: (345000, 15000),
                saturation: (500, 1000),
                lightness: (100, 900),
            },
            green: RegionConfig {
                hue: (90000, 150000),
                saturation: (500, 1000),
                lightness: (100, 900),
            },
            yellow: RegionConfig {
                hue: (45000, 75000),
                saturation: (500, 1000),
                lightness: (100, 900),
            },
            blue: RegionConfig {
                hue: (210000, 255000),
                saturation: (500, 1000),
                lightness: (100, 900),
            },
            purple: RegionConfig {
                hue: (270000, 300000),
                saturation: (500, 1000),
                lightness: (100, 900),
            },
            cyan: RegionConfig {
                hue: (165000, 195000),
                saturation: (500, 1000),
                lightness: (100, 900),
            },
            white: RegionConfig { hue: (0, 360000), saturation: (0, 500), lightness: (900, 1000) },
        }
    }
}

/// The subsequence of `samples` that falls inside `reg`, in source order.
pub open spec fn spec_bucket(reg: Region, samples: Seq<Sample>) -> Seq<Sample> {
    samples.filter(|s: Sample| reg.spec_contains(s.hsl))
}

/// How many samples fall inside `reg`.
pub open spec fn spec_population(reg: Region, samples: Seq<Sample>) -> nat {
    spec_bucket(reg, samples).len()
}

/// The Lab colors of a sequence of samples.
pub open spec fn spec_labs(bucket: Seq<Sample>) -> Seq<Lab> {
    bucket.map_values(|s: Sample| s.lab)
}

/// The componentwise Lab midpoint of two colors.
pub open spec fn spec_lab_midpoint(x: Lab, y: Lab) -> Lab {
    Lab {
        l: div_toward_zero(x.l + y.l, 2) as i64,
        a: div_toward_zero(x.a + y.a, 2) as i64,
        b: div_toward_zero(x.b + y.b, 2) as i64,
    }
}

/// What a bucket reduces to: the Lab centroid of its samples, or, when it
/// received none, the midpoint of the two corner colors supplied for its
/// region.
pub open spec fn spec_reduced(bucket: Seq<Sample>, corners: (Lab, Lab)) -> Lab {
    if bucket.len() == 0 {
        spec_lab_midpoint(corners.0, corners.1)
    } else {
        spec_centroid(spec_labs(bucket))
    }
}

/// The final color of one region's bucket, from the raw samples.
pub open spec fn spec_bucket_color(reg: Region, corners: (Lab, Lab), samples: Seq<Sample>) -> Lab {
    spec_reduced(spec_bucket(reg, samples), corners)
}

/// Each element of a filtered sequence comes from the original sequence.
proof fn lemma_filter_element_of<A>(s: Seq<A>, pred: spec_fn(A) -> bool, i: int)
    requires
        0 <= i < s.filter(pred).len(),
    ensures
        exists|j: int| 0 <= j < s.len() && (#[trigger] s[j]) == s.filter(pred)[i],
    decreases s.len(),
{
    reveal(Seq::filter);
    let f = s.filter(pred);
    let fd = s.drop_last().filter(pred);
    if s.len() > 0 {
        if pred(s.last()) && i == f.len() - 1 {
            assert(f[i] == s.last());
            assert(s[s.len() - 1] == f[i]);
        } else {
            assert(f[i] == fd[i]);
            lemma_filter_element_of(s.drop_last(), pred, i);
            let j = choose|j: int|
                0 <= j < s.drop_last().len() && (#[trigger] s.drop_last()[j]) == fd[i];
            assert(s[j] == f[i]);
        }
    }
}

/// When every sample's Lab color is well formed, so is every bucket
/// element's.
proof fn lemma_bucket_labs_wf(reg: Region, samples: Seq<Sample>)
    requires
        forall|i: int| 0 <= i < samples.len() ==> (#[trigger] samples[i]).lab.wf(),
    ensures
        forall|i: int|
            0 <= i < spec_bucket(reg, samples).len() ==> (#[trigger] spec_bucket(reg, samples)[i]).lab.wf(),
{
    let pred = |s: Sample| reg.spec_contains(s.hsl);
    assert forall|i: int|
        0 <= i < spec_bucket(reg, samples).len() implies (#[trigger] spec_bucket(
        reg,
        samples,
    )[i]).lab.wf() by {
        lemma_filter_element_of(samples, pred, i);
        let j = choose|j: int|
            0 <= j < samples.len() && (#[trigger] samples[j]) == samples.filter(pred)[i];
        assert(samples[j].lab.wf());
    }
}

/// Relies on rayon's `par_iter`, `filter`, `cloned` and `collect`: the
/// predicate only calls the library's verified region test, and collecting a
/// parallel iterator into a `Vec` keeps the source order (rayon's collect
/// appends the per-chunk buffers in chunk order; its documentation shows
/// `collect` reproducing the sequential result).
#[verifier::external_body]
fn par_filter_region(reg: &Region, samples: &Vec<Sample>) -> (r: Vec<Sample>)
    requires
        reg.wf(),
    ensures
        r@ == samples@.filter(|s: Sample| reg.spec_contains(s.hsl)),
{
    samples.par_iter().filter(|s| reg.contains(&s.hsl)).cloned().collect()
}

impl Palette<Region> {
    /// All eight regions well formed.
    pub open spec fn regions_wf(self) -> bool {
        &&& self.black.wf()
        &&& self.red.wf()
        &&& self.green.wf()
        &&& self.yellow.wf()
        &&& self.blue.wf()
        &&& self.purple.wf()
        &&& self.cyan.wf()
        &&& self.white.wf()
    }

    /// Fans the sample stream into the eight buckets: eight independent
    /// single-pass filters over the same sequence, each keeping source
    /// order. A sample may land in several buckets, or in none.
    pub fn split(&self, samples: &Vec<Sample>) -> (r: Palette<Vec<Sample>>)
        requires
            self.regions_wf(),
        ensures
            r.black@ == spec_bucket(self.black, samples@),
            r.red@ == spec_bucket(self.red, samples@),
            r.green@ == spec_bucket(self.green, samples@),
            r.yellow@ == spec_bucket(self.yellow, samples@),
            r.blue@ == spec_bucket(self.blue, samples@),
            r.purple@ == spec_bucket(self.purple, samples@),
            r.cyan@ == spec_bucket(self.cyan, samples@),
            r.white@ == spec_bucket(self.white, samples@),
    {
        Palette {
            black: par_filter_region(&self.black, samples),
            red: par_filter_region(&self.red, samples),
            green: par_filter_region(&self.green, samples),
            yellow: par_filter_region(&self.yellow, samples),
            blue: par_filter_region(&self.blue, samples),
            purple: par_filter_region(&self.purple, samples),
            cyan: par_filter_region(&self.cyan, samples),
            white: par_filter_region(&self.white, samples),
        }
    }
}

/// The Lab colors of one bucket, in order.
fn bucket_labs(bucket: &Vec<Sample>) -> (r: Vec<Lab>)
    ensures
        r@ == spec_labs(bucket@),
{
    let mut r: Vec<Lab> = Vec::new();
    let n = bucket.len();
    let mut i: usize = 0;
    while i < n
        invariant
            n == bucket@.len(),
            i <= n,
            r@.len() == i,
            forall|j: int| 0 <= j < i ==> r@[j] == (#[trigger] bucket@[j]).lab,
        decreases n - i,
    {
        let s = bucket[i];
        r.push(s.lab);
        i = i + 1;
    }
    proof {
        assert(r@ =~= spec_labs(bucket@));
    }
    r
}

/// The componentwise Lab midpoint of two well-formed colors.
pub fn lab_midpoint(x: &Lab, y: &Lab) -> (r: Lab)
    requires
        x.wf(),
        y.wf(),
    ensures
        r == spec_lab_midpoint(*x, *y),
        r.wf(),
{
    Lab { l: (x.l + y.l) / 2, a: (x.a + y.a) / 2, b: (x.b + y.b) / 2 }
}

/// Reduces one bucket: its centroid when it holds samples, the corner
/// midpoint when it is empty. Also reports the bucket's population.
fn bucket_result(method: &AverageMethod, bucket: &Vec<Sample>, corners: &(Lab, Lab)) -> (r: (
    Lab,
    usize,
))
    requires
        corners.0.wf(),
        corners.1.wf(),
        forall|i: int| 0 <= i < bucket@.len() ==> (#[trigger] bucket@[i]).lab.wf(),
    ensures
        r.0 == spec_reduced(bucket@, *corners),
        r.0.wf(),
        r.1 == bucket@.len(),
{
    let labs = bucket_labs(bucket);
    proof {
        assert(forall|i: int| 0 <= i < labs@.len() ==> (#[trigger] labs@[i]).wf());
    }
    let averaged = method.average(&labs);
    let color = match averaged {
        Some(c) => c,
        None => lab_midpoint(&corners.0, &corners.1),
    };
    (color, bucket.len())
}

/// One accent candidate: a bucket's color, its population, and its place in
/// the fixed red/green/yellow/blue/purple/cyan enumeration.
#[derive(Clone, Copy, Debug, PartialEq, Eq, Structural)]
pub struct Accent {
    pub color: Lab,
    pub count: usize,
    pub slot: usize,
}

/// The accent ranking order: more populous first; at equal populations, the
/// fixed enumeration order decides. A total order, since slots are distinct.
pub open spec fn spec_accent_le(x: Accent, y: Accent) -> bool {
    ||| x.count > y.count
    ||| (x.count == y.count && x.slot <= y.slot)
}

/// Sorted by descending population with the fixed order as tie-break.
pub open spec fn spec_accents_sorted(s: Seq<Accent>) -> bool {
    forall|i: int, j: int| 0 <= i < j < s.len() ==> spec_accent_le(#[trigger] s[i], #[trigger] s[j])
}

fn accent_le(a: &Accent, b: &Accent) -> (r: bool)
    ensures
        r == spec_accent_le(*a, *b),
{
    a.count > b.count || (a.count == b.count && a.slot <= b.slot)
}

/// Inserts `x` into a ranked vector, keeping it ranked. Equal keys keep the
/// earlier element first, which is what makes the overall sort stable.
fn insert_ranked(v: Vec<Accent>, x: Accent) -> (r: Vec<Accent>)
    requires
        spec_accents_sorted(v@),
    ensures
        spec_accents_sorted(r@),
        r@.len() == v@.len() + 1,
        r@.to_multiset() == v@.to_multiset().insert(x),
{
    let n = v.len();
    let mut idx: usize = 0;
    while idx < n && accent_le(&v[idx], &x)
        invariant
            idx <= n,
            n == v@.len(),
            forall|k: int| 0 <= k < idx ==> spec_accent_le(#[trigger] v@[k], x),
        decreases n - idx,
    {
        idx = idx + 1;
    }
    let mut r: Vec<Accent> = Vec::new();
    let mut i: usize = 0;
    while i < idx
        invariant
            idx <= n,
            n == v@.len(),
            i <= idx,
            r@ =~= v@.subrange(0, i as int),
        decreases idx - i,
    {
        r.push(v[i]);
        i = i + 1;
    }
    r.push(x);
    let mut j: usize = idx;
    while j < n
        invariant
            idx <= j <= n,
            n == v@.len(),
            r@ =~= v@.subrange(0, idx as int) + seq![x] + v@.subrange(idx as int, j as int),
        decreases n - j,
    {
        r.push(v[j]);
        j = j + 1;
    }
    proof {
        lemma_insert_ranked_ok(v@, x, idx as int, r@);
    }
    r
}

/// The concatenation prefix + element + suffix at the found position is
/// ranked and holds the old elements plus the new one.
proof fn lemma_insert_ranked_ok(v: Seq<Accent>, x: Accent, idx: int, r: Seq<Accent>)
    requires
        spec_accents_sorted(v),
        0 <= idx <= v.len(),
        forall|k: int| 0 <= k < idx ==> spec_accent_le(#[trigger] v[k], x),
        idx < v.len() ==> !spec_accent_le(v[idx], x),
        r =~= v.subrange(0, idx) + seq![x] + v.subrange(idx, v.len() as int),
    ensures
        spec_accents_sorted(r),
        r.len() == v.len() + 1,
        r.to_multiset() == v.to_multiset().insert(x),
{
    assert forall|i: int, j: int| 0 <= i < j < r.len() implies spec_accent_le(r[i], r[j]) by {
        if i < idx {
            assert(r[i] == v[i]);
        } else if i == idx {
            assert(r[i] == x);
        } else {
            assert(r[i] == v[i - 1]);
        }
        if j < idx {
            assert(r[j] == v[j]);
        } else if j == idx {
            assert(r[j] == x);
        } else {
            assert(r[j] == v[j - 1]);
        }
    }
    broadcast use vstd::seq_lib::group_to_multiset_ensures;

    let left = v.subrange(0, idx);
    let mid = seq![x];
    let right = v.subrange(idx, v.len() as int);
    vstd::seq_lib::lemma_multiset_commutative(left + mid, right);
    vstd::seq_lib::lemma_multiset_commutative(left, mid);
    vstd::seq_lib::lemma_multiset_commutative(left, right);
    assert(v =~= left + right);
    assert(mid =~= Seq::<Accent>::empty().push(x));
    assert(Seq::<Accent>::empty().to_multiset() =~= Multiset::<Accent>::empty());
    assert(mid.to_multiset() =~= Multiset::<Accent>::empty().insert(x));
    assert((left + mid + right).to_multiset() =~= v.to_multiset().insert(x));
}

/// The six accent entries of a generated palette, in the fixed enumeration
/// order.
pub open spec fn spec_accent_entries(pal: Palette<(Lab, usize)>) -> Seq<Accent> {
    seq![
        Accent { color: pal.red.0, count: pal.red.1, slot: 0 },
        Accent { color: pal.green.0, count: pal.green.1, slot: 1 },
        Accent { color: pal.yellow.0, count: pal.yellow.1, slot: 2 },
        Accent { color: pal.blue.0, count: pal.blue.1, slot: 3 },
        Accent { color: pal.purple.0, count: pal.purple.1, slot: 4 },
        Accent { color: pal.cyan.0, count: pal.cyan.1, slot: 5 },
    ]
}

/// Ranks the six accent buckets by descending population, ties falling back
/// to the fixed red/green/yellow/blue/purple/cyan order.
pub fn accents_ranked(pal: &Palette<(Lab, usize)>) -> (r: Vec<Accent>)
    ensures
        r@.len() == 6,
        spec_accents_sorted(r@),
        r@.to_multiset() == spec_accent_entries(*pal).to_multiset(),
{
    let e0 = Accent { color: pal.red.0, count: pal.red.1, slot: 0 };
    let e1 = Accent { color: pal.green.0, count: pal.green.1, slot: 1 };
    let e2 = Accent { color: pal.yellow.0, count: pal.yellow.1, slot: 2 };
    let e3 = Accent { color: pal.blue.0, count: pal.blue.1, slot: 3 };
    let e4 = Accent { color: pal.purple.0, count: pal.purple.1, slot: 4 };
    let e5 = Accent { color: pal.cyan.0, count: pal.cyan.1, slot: 5 };
    let r0: Vec<Accent> = Vec::new();
    proof {
        assert(r0@ =~= Seq::<Accent>::empty());
    }
    let r1 = insert_ranked(r0, e0);
    let r2 = insert_ranked(r1, e1);
    let r3 = insert_ranked(r2, e2);
    let r4 = insert_ranked(r3, e3);
    let r5 = insert_ranked(r4, e4);
    let r = insert_ranked(r5, e5);
    proof {
        broadcast use vstd::seq_lib::group_to_multiset_ensures;

        let e = spec_accent_entries(*pal);
        assert(e[0] == e0 && e[1] == e1 && e[2] == e2 && e[3] == e3 && e[4] == e4 && e[5] == e5);
        assert(e =~= Seq::<Accent>::empty().push(e0).push(e1).push(e2).push(e3).push(e4).push(e5));
        assert(Seq::<Accent>::empty().to_multiset() =~= Multiset::<Accent>::empty());
        assert(r0@.to_multiset() =~= Multiset::<Accent>::empty());
        assert(r@.to_multiset() =~= e.to_multiset());
    }
    r
}

/// Orchestrates palette generation. The region configuration and, for each
/// region, the Lab colors of its two corners (start and end, as
/// `Region::start` and `Region::end` give them) are the caller's inputs,
/// together with the samples.
pub struct Generator {
    pub mode_preference: Option<ModePreference>,
    pub average_method: AverageMethod,
}

impl Default for Generator {
    /// No mode preference; Lab-centroid averaging.
    fn default() -> (r: Self)
        ensures
            r.mode_preference is None,
            r.average_method == AverageMethod::LabCentroid,
    {
        Self { mode_preference: None, average_method: AverageMethod::LabCentroid }
    }
}

/// Both corner colors well formed, for every region.
pub open spec fn corners_wf(corners: Palette<(Lab, Lab)>) -> bool {
    &&& corners.black.0.wf() && corners.black.1.wf()
    &&& corners.red.0.wf() && corners.red.1.wf()
    &&& corners.green.0.wf() && corners.green.1.wf()
    &&& corners.yellow.0.wf() && corners.yellow.1.wf()
    &&& corners.blue.0.wf() && corners.blue.1.wf()
    &&& corners.purple.0.wf() && corners.purple.1.wf()
    &&& corners.cyan.0.wf() && corners.cyan.1.wf()
    &&& corners.white.0.wf() && corners.white.1.wf()
}

/// Every sample's Lab color well formed.
pub open spec fn samples_wf(samples: Seq<Sample>) -> bool {
    forall|i: int| 0 <= i < samples.len() ==> (#[trigger] samples[i]).lab.wf()
}

impl Generator {
    /// Partitions the samples and reduces every bucket to a color and its
    /// population.
    pub fn gen_palette(
        &self,
        samples: &Vec<Sample>,
        regs: &Palette<Region>,
        corners: &Palette<(Lab, Lab)>,
    ) -> (r: Palette<(Lab, usize)>)
        requires
            regs.regions_wf(),
            corners_wf(*corners),
            samples_wf(samples@),
        ensures
            r.black.0 == spec_bucket_color(regs.black, corners.black, samples@),
            r.red.0 == spec_bucket_color(regs.red, corners.red, samples@),
            r.green.0 == spec_bucket_color(regs.green, corners.green, samples@),
            r.yellow.0 == spec_bucket_color(regs.yellow, corners.yellow, samples@),
            r.blue.0 == spec_bucket_color(regs.blue, corners.blue, samples@),
            r.purple.0 == spec_bucket_color(regs.purple, corners.purple, samples@),
            r.cyan.0 == spec_bucket_color(regs.cyan, corners.cyan, samples@),
            r.white.0 == spec_bucket_color(regs.white, corners.white, samples@),
            r.black.1 == spec_population(regs.black, samples@),
            r.red.1 == spec_population(regs.red, samples@),
            r.green.1 == spec_population(regs.green, samples@),
            r.yellow.1 == spec_population(regs.yellow, samples@),
            r.blue.1 == spec_population(regs.blue, samples@),
            r.purple.1 == spec_population(regs.purple, samples@),
            r.cyan.1 == spec_population(regs.cyan, samples@),
            r.white.1 == spec_population(regs.white, samples@),
            r.black.0.wf() && r.red.0.wf() && r.green.0.wf() && r.yellow.0.wf() && r.blue.0.wf()
                && r.purple.0.wf() && r.cyan.0.wf() && r.white.0.wf(),
    {
        let split = regs.split(samples);
        proof {
            lemma_bucket_labs_wf(regs.black, samples@);
            lemma_bucket_labs_wf(regs.red, samples@);
            lemma_bucket_labs_wf(regs.green, samples@);
            lemma_bucket_labs_wf(regs.yellow, samples@);
            lemma_bucket_labs_wf(regs.blue, samples@);
            lemma_bucket_labs_wf(regs.purple, samples@);
            lemma_bucket_labs_wf(regs.cyan, samples@);
            lemma_bucket_labs_wf(regs.white, samples@);
        }
        Palette {
            black: bucket_result(&self.average_method, &split.black, &corners.black),
            red: bucket_result(&self.average_method, &split.red, &corners.red),
            green: bucket_result(&self.average_method, &split.green, &corners.green),
            yellow: bucket_result(&self.average_method, &split.yellow, &corners.yellow),
            blue: bucket_result(&self.average_method, &split.blue, &corners.blue),
            purple: bucket_result(&self.average_method, &split.purple, &corners.purple),
            cyan: bucket_result(&self.average_method, &split.cyan, &corners.cyan),
            white: bucket_result(&self.average_method, &split.white, &corners.white),
        }
    }

    /// Generates the full color set: the eight bucket colors, the six
    /// accents ranked by descending population, and the foreground and
    /// background chosen by the mode preference or, absent one, by whichever
    /// of the black and white buckets is more populous (the dominant tone
    /// becomes the background; ties keep black as background).
    pub fn generate(
        &self,
        samples: &Vec<Sample>,
        regs: &Palette<Region>,
        corners: &Palette<(Lab, Lab)>,
    ) -> (r: Colors<Lab>)
        requires
            regs.regions_wf(),
            corners_wf(*corners),
            samples_wf(samples@),
        ensures
            r.palette.black == spec_bucket_color(regs.black, corners.black, samples@),
            r.palette.red == spec_bucket_color(regs.red, corners.red, samples@),
            r.palette.green == spec_bucket_color(regs.green, corners.green, samples@),
            r.palette.yellow == spec_bucket_color(regs.yellow, corners.yellow, samples@),
            r.palette.blue == spec_bucket_color(regs.blue, corners.blue, samples@),
            r.palette.purple == spec_bucket_color(regs.purple, corners.purple, samples@),
            r.palette.cyan == spec_bucket_color(regs.cyan, corners.cyan, samples@),
            r.palette.white == spec_bucket_color(regs.white, corners.white, samples@),
            self.mode_preference == Some(ModePreference::Light) ==> r.foreground
                == r.palette.black && r.background == r.palette.white,
            self.mode_preference == Some(ModePreference::Dark) ==> r.foreground == r.palette.white
                && r.background == r.palette.black,
            self.mode_preference is None && spec_population(regs.white, samples@)
                > spec_population(regs.black, samples@) ==> r.foreground == r.palette.black
                && r.background == r.palette.white,
            self.mode_preference is None && spec_population(regs.white, samples@)
                <= spec_population(regs.black, samples@) ==> r.foreground == r.palette.white
                && r.background == r.palette.black,
            r.accents@.len() == 6,
            (exists|e: Seq<Accent>|
                spec_accents_sorted(e) && e.to_multiset() == spec_accent_entries(
                    spec_results(*regs, *corners, samples@),
                ).to_multiset() && r.accents@ == e.map_values(|a: Accent| a.color)),
    {
        let pal = self.gen_palette(samples, regs, corners);
        let ranked = accents_ranked(&pal);
        let mut accents: Vec<Lab> = Vec::new();
        let mut i: usize = 0;
        while i < ranked.len()
            invariant
                i <= ranked@.len(),
                accents@.len() == i,
                forall|j: int| 0 <= j < i ==> accents@[j] == (#[trigger] ranked@[j]).color,
            decreases ranked@.len() - i,
        {
            let a = ranked[i];
            accents.push(a.color);
            i = i + 1;
        }
        proof {
            assert(accents@ =~= ranked@.map_values(|a: Accent| a.color));
            assert(spec_accent_entries(pal) =~= spec_accent_entries(
                spec_results(*regs, *corners, samples@),
            ));
        }
        let foreground = match self.mode_preference {
            Some(ModePreference::Light) => pal.black.0,
            Some(ModePreference::Dark) => pal.white.0,
            None => {
                if pal.white.1 > pal.black.1 {
                    pal.black.0
                } else {
                    pal.white.0
                }
            },
        };
        let background = match self.mode_preference {
            Some(ModePreference::Light) => pal.white.0,
            Some(ModePreference::Dark) => pal.black.0,
            None => {
                if pal.white.1 > pal.black.1 {
                    pal.white.0
                } else {
                    pal.black.0
                }
            },
        };
        Colors {
            palette: Palette {
                black: pal.black.0,
                red: pal.red.0,
                green: pal.green.0,
                yellow: pal.yellow.0,
                blue: pal.blue.0,
                purple: pal.purple.0,
                cyan: pal.cyan.0,
                white: pal.white.0,
            },
            accents,
            foreground,
            background,
        }
    }
}

/// A bare generation interface: averages every bucket and demands that each
/// region received at least one sample; no extrapolation, no accent ranking,
/// no foreground or background choice. `Generator` does all of that and
/// recovers empty buckets instead of ruling them out.
pub struct GenerationOpts {
    pub average_method: AverageMethod,
}

impl Default for GenerationOpts {
    /// Lab-centroid averaging.
    fn default() -> (r: Self)
        ensures
            r.average_method == AverageMethod::LabCentroid,
    {
        Self { average_method: AverageMethod::LabCentroid }
    }
}

impl GenerationOpts {
    /// Averages the eight buckets. Every region must catch at least one
    /// sample: an empty bucket has no average and is not recovered here.
    pub fn generate(&self, samples: &Vec<Sample>, regs: &Palette<Region>) -> (r: Palette<Lab>)
        requires
            regs.regions_wf(),
            samples_wf(samples@),
            spec_population(regs.black, samples@) > 0,
            spec_population(regs.red, samples@) > 0,
            spec_population(regs.green, samples@) > 0,
            spec_population(regs.yellow, samples@) > 0,
            spec_population(regs.blue, samples@) > 0,
            spec_population(regs.purple, samples@) > 0,
            spec_population(regs.cyan, samples@) > 0,
            spec_population(regs.white, samples@) > 0,
        ensures
            r.black == spec_centroid(spec_labs(spec_bucket(regs.black, samples@))),
            r.red == spec_centroid(spec_labs(spec_bucket(regs.red, samples@))),
            r.green == spec_centroid(spec_labs(spec_bucket(regs.green, samples@))),
            r.yellow == spec_centroid(spec_labs(spec_bucket(regs.yellow, samples@))),
            r.blue == spec_centroid(spec_labs(spec_bucket(regs.blue, samples@))),
            r.purple == spec_centroid(spec_labs(spec_bucket(regs.purple, samples@))),
            r.cyan == spec_centroid(spec_labs(spec_bucket(regs.cyan, samples@))),
            r.white == spec_centroid(spec_labs(spec_bucket(regs.white, samples@))),
    {
        let split = regs.split(samples);
        proof {
            lemma_bucket_labs_wf(regs.black, samples@);
            lemma_bucket_labs_wf(regs.red, samples@);
            lemma_bucket_labs_wf(regs.green, samples@);
            lemma_bucket_labs_wf(regs.yellow, samples@);
            lemma_bucket_labs_wf(regs.blue, samples@);
            lemma_bucket_labs_wf(regs.purple, samples@);
            lemma_bucket_labs_wf(regs.cyan, samples@);
            lemma_bucket_labs_wf(regs.white, samples@);
        }
        Palette {
            black: averaged_color(&self.average_method, &split.black),
            red: averaged_color(&self.average_method, &split.red),
            green: averaged_color(&self.average_method, &split.green),
            yellow: averaged_color(&self.average_method, &split.yellow),
            blue: averaged_color(&self.average_method, &split.blue),
            purple: averaged_color(&self.average_method, &split.purple),
            cyan: averaged_color(&self.average_method, &split.cyan),
            white: averaged_color(&self.average_method, &split.white),
        }
    }
}

/// The average of one non-empty bucket.
fn averaged_color(method: &AverageMethod, bucket: &Vec<Sample>) -> (r: Lab)
    requires
        bucket@.len() > 0,
        forall|i: int| 0 <= i < bucket@.len() ==> (#[trigger] bucket@[i]).lab.wf(),
    ensures
        r == spec_centroid(spec_labs(bucket@)),
{
    let labs = bucket_labs(bucket);
    proof {
        assert(forall|i: int| 0 <= i < labs@.len() ==> (#[trigger] labs@[i]).wf());
    }
    match method.average(&labs) {
        Some(c) => c,
        // a non-empty bucket always has an average; this arm cannot run
        None => Lab { l: 0, a: 0, b: 0 },
    }
}

/// Ranked accent sequences are pinned down: two sequences that are both
/// ranked, hold the same entries, and give every entry its own slot are the
/// same sequence. The ranking contract therefore has exactly one solution.
pub proof fn lemma_ranking_unique(e1: Seq<Accent>, e2: Seq<Accent>)
    requires
        spec_accents_sorted(e1),
        spec_accents_sorted(e2),
        e1.to_multiset() == e2.to_multiset(),
        forall|i: int, j: int|
            0 <= i < j < e1.len() ==> (#[trigger] e1[i]).slot != (#[trigger] e1[j]).slot,
    ensures
        e1 == e2,
    decreases e1.len(),
{
    broadcast use vstd::seq_lib::group_to_multiset_ensures;

    e1.to_multiset_ensures();
    e2.to_multiset_ensures();
    if e1.len() == 0 {
        assert(e1 =~= e2);
    } else {
        let x = e1[0];
        assert(e2.contains(x)) by {
            assert(e1.contains(x));
            assert(e1.to_multiset().count(x) > 0);
            assert(e2.to_multiset().count(x) > 0);
        }
        let j = choose|j: int| 0 <= j < e2.len() && e2[j] == x;
        let y = e2[0];
        assert(e1.contains(y)) by {
            assert(e2.contains(y));
            assert(e2.to_multiset().count(y) > 0);
            assert(e1.to_multiset().count(y) > 0);
        }
        let i = choose|i: int| 0 <= i < e1.len() && e1[i] == y;
        assert(spec_accent_le(x, e1[i]));
        assert(spec_accent_le(y, e2[j]));
        assert(x.count == y.count && x.slot == y.slot);
        assert(x == y) by {
            if i > 0 {
                assert(e1[0].slot != e1[i].slot);
            }
        }
        assert(e1.remove(0).to_multiset() =~= e1.to_multiset().remove(x));
        assert(e2.remove(0).to_multiset() =~= e2.to_multiset().remove(x));
        assert(forall|a: int, b: int|
            0 <= a < b < e1.remove(0).len() ==> (#[trigger] e1.remove(0)[a]).slot != (
            #[trigger] e1.remove(0)[b]).slot);
        lemma_ranking_unique(e1.remove(0), e2.remove(0));
        assert(e1.len() == e2.len());
        assert forall|k: int| 0 <= k < e1.len() implies e1[k] == e2[k] by {
            if k > 0 {
                assert(e1.remove(0)[k - 1] == e1[k]);
                assert(e2.remove(0)[k - 1] == e2[k]);
            }
        }
        assert(e1 =~= e2);
    }
}

/// The per-bucket colors and populations, as `gen_palette` computes them.
pub open spec fn spec_results(
    regs: Palette<Region>,
    corners: Palette<(Lab, Lab)>,
    samples: Seq<Sample>,
) -> Palette<(Lab, usize)> {
    Palette {
        black: (
            spec_bucket_color(regs.black, corners.black, samples),
            spec_population(regs.black, samples) as usize,
        ),
        red: (
            spec_bucket_color(regs.red, corners.red, samples),
            spec_population(regs.red, samples) as usize,
        ),
        green: (
            spec_bucket_color(regs.green, corners.green, samples),
            spec_population(regs.green, samples) as usize,
        ),
        yellow: (
            spec_bucket_color(regs.yellow, corners.yellow, samples),
            spec_population(regs.yellow, samples) as usize,
        ),
        blue: (
            spec_bucket_color(regs.blue, corners.blue, samples),
            spec_population(regs.blue, samples) as usize,
        ),
        purple: (
            spec_bucket_color(regs.purple, corners.purple, samples),
            spec_population(regs.purple, samples) as usize,
        ),
        cyan: (
            spec_bucket_color(regs.cyan, corners.cyan, samples),
            spec_population(regs.cyan, samples) as usize,
        ),
        white: (
            spec_bucket_color(regs.white, corners.white, samples),
            spec_population(regs.white, samples) as usize,
        ),
    }
}

/// A bucket that received no samples reduces to the midpoint of its
/// region's corner colors: the generator never fails for want of a hue.
pub proof fn lemma_empty_bucket_extrapolates(
    reg: Region,
    corners: (Lab, Lab),
    samples: Seq<Sample>,
)
    requires
        spec_population(reg, samples) == 0,
    ensures
        spec_bucket_color(reg, corners, samples) == spec_lab_midpoint(corners.0, corners.1),
{
}

/// A region whose hue range has length zero accepts every hue: only the
/// saturation and lightness intervals decide.
pub proof fn lemma_full_circle_region(reg: Region, c: Hsl)
    requires
        reg.hue.spec_length() == 0,
        reg.saturation.0 <= c.saturation <= reg.saturation.1,
        reg.lightness.0 <= c.lightness <= reg.lightness.1,
    ensures
        reg.spec_contains(c),
{
}

} // verus!
