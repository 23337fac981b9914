//! Per-family interaction properties.
//!
//! A family carries an ancestry vector (one weight per family, a one-hot
//! vector for an original family, a blend for a derived one) and one list of
//! force curves per family it can interact with. `attraction` folds those
//! curves, weighted by the other family's ancestry, into a single signed
//! force; `combine` blends two families into a derived one.

use vstd::prelude::*;
use crate::curve::Curve;
use crate::curve::curve_generated;
use crate::curve::spec_sample;
use crate::curve::spec_scale;
use crate::fixed::SCALE;
use crate::fixed::clamp64;
use crate::fixed::div_trunc;
use crate::fixed::spec_add;
use crate::fixed::spec_mul;
use crate::fixed::fp_add;
use crate::fixed::fp_mul;
use crate::fixed::lemma_mul_div_cancel;

verus! {

/// The ancestry and force-curve matrix of one particle family.
#[derive(Clone, Debug)]
pub struct FamilyProperties {
    /// One weight per family, `SCALE` meaning a full unit.
    pub ancestry: Vec<i64>,
    /// `curves[j]` is the list of curves applied against family `j`.
    pub curves: Vec<Vec<Curve>>,
}

/// Both vectors of a family run over the same `count` families.
pub open spec fn family_wf(f: FamilyProperties, count: int) -> bool {
    &&& f.ancestry@.len() == count
    &&& f.curves@.len() == count
}

/// The saturating sum of the first `k` curve samples at `t`.
pub open spec fn sum_samples_upto(cs: Seq<Curve>, t: int, k: int) -> int
    decreases k,
{
    if k <= 0 {
        0
    } else {
        spec_add(sum_samples_upto(cs, t, k - 1), spec_sample(cs[k - 1], t))
    }
}

/// One family's contribution to the attraction: zero when its ancestry
/// weight is zero (the curves are then never sampled), otherwise the
/// weighted sum of its curve samples.
pub open spec fn attraction_term(
    curves: Seq<Curve>,
    weight: int,
    t: int,
) -> int {
    if weight == 0 {
        0
    } else {
        spec_mul(weight, sum_samples_upto(curves, t, curves.len() as int))
    }
}

/// The saturating sum of the first `k` families' attraction terms.
pub open spec fn attraction_upto(
    slf: FamilyProperties,
    other: FamilyProperties,
    t: int,
    k: int,
) -> int
    decreases k,
{
    if k <= 0 {
        0
    } else {
        spec_add(
            attraction_upto(slf, other, t, k - 1),
            attraction_term(slf.curves@[k - 1]@, other.ancestry@[k - 1] as int, t),
        )
    }
}

/// The exact value of `FamilyProperties::attraction`.
pub open spec fn spec_attraction(
    slf: FamilyProperties,
    other: FamilyProperties,
    t: int,
) -> int {
    attraction_upto(slf, other, t, slf.curves@.len() as int)
}

/// The exact value of one blended ancestry entry: the weighted sum
/// `(a * wa + b * wb) / SCALE`, divided once so that an even blend of a
/// value with itself is exact.
pub open spec fn spec_blend(a: int, b: int, wa: int, wb: int) -> int {
    clamp64(div_trunc(a * wa + b * wb, SCALE as int))
}

/// The first `k` curves of `cs`, each scaled by `w`.
pub open spec fn scaled_upto(cs: Seq<Curve>, w: int, k: int) -> Seq<Curve>
    decreases k,
{
    if k <= 0 {
        Seq::empty()
    } else {
        scaled_upto(cs, w, k - 1).push(spec_scale(cs[k - 1], w))
    }
}

/// All of `cs` scaled by `w`.
pub open spec fn spec_scaled(cs: Seq<Curve>, w: int) -> Seq<Curve> {
    scaled_upto(cs, w, cs.len() as int)
}

impl FamilyProperties {
    /// The net force this family feels from `other` at normalized distance
    /// `t`: for every family index, `other`'s ancestry weight there times
    /// the sum of this family's curves against that family, sampled at `t`.
    pub fn attraction(&self, other: &FamilyProperties, t: i64) -> (r: i64)
        requires
            self.curves@.len() == other.ancestry@.len(),
        ensures
            r as int == spec_attraction(*self, *other, t as int),
    {
        let n = self.curves.len();
        let mut acc: i64 = 0;
        let mut i: usize = 0;
        while i < n
            invariant
                n == self.curves@.len(),
                n == other.ancestry@.len(),
                i <= n,
                acc as int == attraction_upto(*self, *other, t as int, i as int),
            decreases n - i,
        {
            let weight = other.ancestry[i];
            if weight != 0 {
                let cs = &self.curves[i];
                let m = cs.len();
                let mut sum: i64 = 0;
                let mut j: usize = 0;
                while j < m
                    invariant
                        m == cs@.len(),
                        j <= m,
                        cs == &self.curves@[i as int],
                        sum as int == sum_samples_upto(cs@, t as int, j as int),
                    decreases m - j,
                {
                    sum = fp_add(sum, cs[j].sample(t));
                    j = j + 1;
                }
                acc = fp_add(acc, fp_mul(weight, sum));
            }
            i = i + 1;
        }
        acc
    }

    /// Blends this family with `other` under convex weights: the ancestry
    /// entries become weighted sums, and the curve lists against each
    /// family are the two parents' lists, each scaled by its weight,
    /// concatenated.
    pub fn combine(&self, other: &FamilyProperties, weights: (i64, i64)) -> (r:
        FamilyProperties)
        requires
            self.ancestry@.len() == other.ancestry@.len(),
            self.curves@.len() == other.curves@.len(),
            0 <= weights.0 <= SCALE,
            0 <= weights.1 <= SCALE,
        ensures
            r.ancestry@.len() == self.ancestry@.len(),
            forall|i: int|
                0 <= i < self.ancestry@.len() ==> r.ancestry@[i] as int
                    == spec_blend(
                    self.ancestry@[i] as int,
                    other.ancestry@[i] as int,
                    weights.0 as int,
                    weights.1 as int,
                ),
            r.curves@.len() == self.curves@.len(),
            forall|i: int|
                0 <= i < self.curves@.len() ==> r.curves@[i]@ == spec_scaled(
                    self.curves@[i]@,
                    weights.0 as int,
                ) + spec_scaled(other.curves@[i]@, weights.1 as int),
    {
        let n = self.ancestry.len();
        let mut ancestry: Vec<i64> = Vec::new();
        let mut i: usize = 0;
        while i < n
            invariant
                n == self.ancestry@.len(),
                n == other.ancestry@.len(),
                i <= n,
                ancestry@.len() == i as int,
                0 <= weights.0 <= SCALE,
                0 <= weights.1 <= SCALE,
                forall|k: int|
                    0 <= k < i as int ==> ancestry@[k] as int == spec_blend(
                        self.ancestry@[k] as int,
                        other.ancestry@[k] as int,
                        weights.0 as int,
                        weights.1 as int,
                    ),
            decreases n - i,
        {
            ancestry.push(blend(self.ancestry[i], other.ancestry[i], weights));
            i = i + 1;
        }
        let m = self.curves.len();
        let mut curves: Vec<Vec<Curve>> = Vec::new();
        let mut i: usize = 0;
        while i < m
            invariant
                m == self.curves@.len(),
                m == other.curves@.len(),
                i <= m,
                curves@.len() == i as int,
                forall|k: int|
                    0 <= k < i as int ==> curves@[k]@ == spec_scaled(
                        self.curves@[k]@,
                        weights.0 as int,
                    ) + spec_scaled(other.curves@[k]@, weights.1 as int),
            decreases m - i,
        {
            let mut list: Vec<Curve> = Vec::new();
            let own = &self.curves[i];
            let theirs = &other.curves[i];
            let mut j: usize = 0;
            while j < own.len()
                invariant
                    own == &self.curves@[i as int],
                    j <= own@.len(),
                    list@ == scaled_upto(own@, weights.0 as int, j as int),
                decreases own@.len() - j,
            {
                list.push(own[j].scale(weights.0));
                j = j + 1;
            }
            let mut j: usize = 0;
            while j < theirs.len()
                invariant
                    own == &self.curves@[i as int],
                    theirs == &other.curves@[i as int],
                    j <= theirs@.len(),
                    list@ == spec_scaled(own@, weights.0 as int) + scaled_upto(
                        theirs@,
                        weights.1 as int,
                        j as int,
                    ),
                decreases theirs@.len() - j,
            {
                list.push(theirs[j].scale(weights.1));
                j = j + 1;
            }
            curves.push(list);
            i = i + 1;
        }
        FamilyProperties { ancestry, curves }
    }
}

impl FamilyProperties {
    /// A freshly generated original family: its ancestry is one-hot at its
    /// own index, and against every family it holds a single random curve.
    pub fn random(family_idx: usize, family_count: usize, fast: bool) -> (r:
        FamilyProperties)
        requires
            family_idx < family_count,
        ensures
            family_wf(r, family_count as int),
            forall|j: int|
                0 <= j < family_count as int ==> r.ancestry@[j] as int == (
                if j == family_idx as int {
                    SCALE as int
                } else {
                    0
                }),
            forall|j: int|
                0 <= j < family_count as int ==> r.curves@[j]@.len() == 1
                    && curve_generated(r.curves@[j]@[0], fast),
    {
        let mut ancestry: Vec<i64> = Vec::new();
        let mut j: usize = 0;
        while j < family_count
            invariant
                j <= family_count,
                ancestry@.len() == j as int,
                forall|k: int|
                    0 <= k < j as int ==> ancestry@[k] as int == (
                    if k == family_idx as int {
                        SCALE as int
                    } else {
                        0
                    }),
            decreases family_count - j,
        {
            if j == family_idx {
                ancestry.push(SCALE);
            } else {
                ancestry.push(0);
            }
            j = j + 1;
        }
        let mut curves: Vec<Vec<Curve>> = Vec::new();
        let mut j: usize = 0;
        while j < family_count
            invariant
                j <= family_count,
                curves@.len() == j as int,
                forall|k: int|
                    0 <= k < j as int ==> curves@[k]@.len() == 1
                        && curve_generated(curves@[k]@[0], fast),
            decreases family_count - j,
        {
            let mut list: Vec<Curve> = Vec::new();
            list.push(Curve::random(fast));
            curves.push(list);
            j = j + 1;
        }
        FamilyProperties { ancestry, curves }
    }
}

/// One blended ancestry entry, exactly `spec_blend`.
fn blend(a: i64, b: i64, weights: (i64, i64)) -> (r: i64)
    requires
        0 <= weights.0 <= SCALE,
        0 <= weights.1 <= SCALE,
    ensures
        r as int == spec_blend(a as int, b as int, weights.0 as int,
            weights.1 as int),
{
    let ghost s = SCALE as int;
    assert((-0x8000000000000000 * 0x100000 <= (a as int) * (weights.0 as int)
        <= 0x8000000000000000 * 0x100000) && (-0x8000000000000000 * 0x100000
        <= (b as int) * (weights.1 as int) <= 0x8000000000000000 * 0x100000))
        by (nonlinear_arith)
        requires
            -0x8000000000000000 <= a as int <= 0x7FFFFFFFFFFFFFFF,
            -0x8000000000000000 <= b as int <= 0x7FFFFFFFFFFFFFFF,
            0 <= weights.0 as int <= SCALE as int,
            0 <= weights.1 as int <= SCALE as int,
            SCALE as int <= 0x100000,
    ;
    let p: i128 = (a as i128) * (weights.0 as i128) + (b as i128)
        * (weights.1 as i128);
    crate::fixed::div_clamp(p, SCALE as i128)
}

/// A family whose ancestry is zero everywhere exerts no pull through its
/// ancestry: the attraction of any family toward it is exactly zero.
pub proof fn lemma_attraction_zero_ancestry(
    slf: FamilyProperties,
    other: FamilyProperties,
    t: int,
)
    requires
        slf.curves@.len() == other.ancestry@.len(),
        forall|i: int| 0 <= i < other.ancestry@.len() ==> other.ancestry@[i] == 0,
    ensures
        spec_attraction(slf, other, t) == 0,
{
    lemma_attraction_upto_zero(slf, other, t, slf.curves@.len() as int);
}

proof fn lemma_attraction_upto_zero(
    slf: FamilyProperties,
    other: FamilyProperties,
    t: int,
    k: int,
)
    requires
        k <= slf.curves@.len(),
        slf.curves@.len() == other.ancestry@.len(),
        forall|i: int| 0 <= i < other.ancestry@.len() ==> other.ancestry@[i] == 0,
    ensures
        attraction_upto(slf, other, t, k) == 0,
    decreases k,
{
    if k > 0 {
        lemma_attraction_upto_zero(slf, other, t, k - 1);
    }
}

/// Blending a family with itself under an even split leaves its ancestry
/// unchanged.
pub proof fn lemma_blend_self_even(a: int)
    requires
        i64::MIN as int <= a <= i64::MAX as int,
    ensures
        spec_blend(a, a, (SCALE as int) / 2, (SCALE as int) / 2) == a,
{
    let s = SCALE as int;
    let h = s / 2;
    assert(a * h + a * h == a * s) by (nonlinear_arith)
        requires
            h + h == s,
    ;
    lemma_mul_div_cancel(a);
}

} // verus!

verus! {

/// Blending a family with itself under an even split leaves the whole
/// ancestry vector unchanged: every blended entry is exactly the original.
pub proof fn lemma_combine_self_ancestry(a: Seq<i64>, r: Seq<i64>)
    requires
        r.len() == a.len(),
        forall|i: int|
            0 <= i < a.len() ==> r[i] as int == spec_blend(a[i] as int,
                a[i] as int, (SCALE as int) / 2, (SCALE as int) / 2),
    ensures
        r == a,
{
    assert forall|i: int| 0 <= i < a.len() implies r[i] == a[i] by {
        lemma_blend_self_even(a[i] as int);
    }
    assert(r =~= a);
}

} // verus!
