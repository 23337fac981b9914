//! Force curves: parametric functions from a normalized distance to a
//! signed force magnitude.
//!
//! A curve is one of three variants. The trigonometric ones sample
//! `sin((lerp(0, turn, t) + x_offset) * x_mul) * y_mul` (or the cosine
//! analogue) with the factor `t` clamped to one unit; the activation one is
//! flat at `0` up to `start` and then a ramp of slope `slope`. `end` only
//! bounds the range used when activation curves are generated; sampling does
//! not consult it.

use vstd::prelude::*;
use crate::fixed::SCALE;
use crate::fixed::clamp64;
use crate::fixed::spec_add;
use crate::fixed::spec_mul;
use crate::fixed::spec_sub;
use crate::fixed::fp_add;
use crate::fixed::fp_mul;
use crate::fixed::fp_sub;
use crate::fixed::lemma_mul_bounded_by;
use crate::fixed::lemma_mul_div_cancel;
use crate::trig::TURN;
use crate::trig::spec_sin;
use crate::trig::spec_cos;
use crate::trig::sin_fp;
use crate::trig::cos_fp;
use crate::trig::lemma_sin_bounded;
use crate::trig::lemma_cos_bounded;
use crate::rng::rand_range;
use crate::rng::rand_bool;
use crate::config::MAX_INTERACTION_DIST;

verus! {

/// Parameters of a trigonometric curve.
#[derive(Clone, Copy, PartialEq, Eq, Structural, Debug)]
pub struct CurveProps {
    pub x_mul: i64,
    pub y_mul: i64,
    pub x_offset: i64,
}

/// Parameters of an activation ramp.
#[derive(Clone, Copy, PartialEq, Eq, Structural, Debug)]
pub struct ActivationProps {
    pub start: i64,
    pub slope: i64,
    pub end: i64,
}

/// A force curve.
#[derive(Clone, Copy, PartialEq, Eq, Structural, Debug)]
pub enum Curve {
    Sin(CurveProps),
    Cos(CurveProps),
    Activation(ActivationProps),
}

/// The factor clamped to one unit: `lerp` between `0` and a full turn is
/// bounded.
pub open spec fn clamp_unit(t: int) -> int {
    if t < 0 {
        0
    } else if t > SCALE as int {
        SCALE as int
    } else {
        t
    }
}

/// The angle a trigonometric curve feeds its wave:
/// `(lerp(0, turn, t) + x_offset) * x_mul`.
pub open spec fn spec_angle(p: CurveProps, t: int) -> int {
    spec_mul(spec_add(spec_mul(clamp_unit(t), TURN as int), p.x_offset as int),
        p.x_mul as int)
}

/// The exact value of `Curve::sample`.
pub open spec fn spec_sample(c: Curve, t: int) -> int {
    match c {
        Curve::Sin(p) => spec_mul(spec_sin(spec_angle(p, t)), p.y_mul as int),
        Curve::Cos(p) => spec_mul(spec_cos(spec_angle(p, t)), p.y_mul as int),
        Curve::Activation(p) => if t > p.start as int {
            spec_mul(spec_sub(t, p.start as int), p.slope as int)
        } else {
            0
        },
    }
}

/// The exact value of `Curve::scale`: every numeric field multiplied by
/// `mul`.
pub open spec fn spec_scale(c: Curve, mul: int) -> Curve {
    match c {
        Curve::Sin(p) => Curve::Sin(
            CurveProps {
                x_mul: spec_mul(p.x_mul as int, mul) as i64,
                y_mul: spec_mul(p.y_mul as int, mul) as i64,
                x_offset: spec_mul(p.x_offset as int, mul) as i64,
            },
        ),
        Curve::Cos(p) => Curve::Cos(
            CurveProps {
                x_mul: spec_mul(p.x_mul as int, mul) as i64,
                y_mul: spec_mul(p.y_mul as int, mul) as i64,
                x_offset: spec_mul(p.x_offset as int, mul) as i64,
            },
        ),
        Curve::Activation(p) => Curve::Activation(
            ActivationProps {
                start: spec_mul(p.start as int, mul) as i64,
                slope: spec_mul(p.slope as int, mul) as i64,
                end: spec_mul(p.end as int, mul) as i64,
            },
        ),
    }
}

impl Curve {
    /// Samples the curve at a normalized distance `t`.
    pub fn sample(&self, t: i64) -> (r: i64)
        ensures
            r as int == spec_sample(*self, t as int),
    {
        match self {
            Curve::Sin(p) => {
                let tc: i64 = if t < 0 {
                    0
                } else if t > SCALE {
                    SCALE
                } else {
                    t
                };
                let angle = fp_mul(fp_add(fp_mul(tc, TURN), p.x_offset), p.x_mul);
                fp_mul(sin_fp(angle), p.y_mul)
            },
            Curve::Cos(p) => {
                let tc: i64 = if t < 0 {
                    0
                } else if t > SCALE {
                    SCALE
                } else {
                    t
                };
                let angle = fp_mul(fp_add(fp_mul(tc, TURN), p.x_offset), p.x_mul);
                fp_mul(cos_fp(angle), p.y_mul)
            },
            Curve::Activation(p) => {
                if t > p.start {
                    fp_mul(fp_sub(t, p.start), p.slope)
                } else {
                    0
                }
            },
        }
    }

    /// Multiplies every numeric field by `mul`; used when two families'
    /// curve lists are blended with weights.
    pub fn scale(&self, mul: i64) -> (r: Curve)
        ensures
            r == spec_scale(*self, mul as int),
    {
        match self {
            Curve::Sin(p) => Curve::Sin(
                CurveProps {
                    x_mul: fp_mul(p.x_mul, mul),
                    y_mul: fp_mul(p.y_mul, mul),
                    x_offset: fp_mul(p.x_offset, mul),
                },
            ),
            Curve::Cos(p) => Curve::Cos(
                CurveProps {
                    x_mul: fp_mul(p.x_mul, mul),
                    y_mul: fp_mul(p.y_mul, mul),
                    x_offset: fp_mul(p.x_offset, mul),
                },
            ),
            Curve::Activation(p) => Curve::Activation(
                ActivationProps {
                    start: fp_mul(p.start, mul),
                    slope: fp_mul(p.slope, mul),
                    end: fp_mul(p.end, mul),
                },
            ),
        }
    }
}

/// The generation range of a trigonometric curve: `x_mul` within two
/// units, `y_mul` within ten, `x_offset` within one turn.
pub open spec fn trig_gen_range(p: CurveProps) -> bool {
    &&& -2 * (SCALE as int) <= (p.x_mul as int) && (p.x_mul as int) < 2 * (SCALE as int)
    &&& -10 * (SCALE as int) <= (p.y_mul as int) && (p.y_mul as int) < 10 * (SCALE as int)
    &&& 0 <= (p.x_offset as int) && (p.x_offset as int) < (TURN as int)
}

/// The generation range of an activation ramp: `start` within two units,
/// `slope` within ten, `end` in the outer half of the interaction radius.
pub open spec fn activation_gen_range(p: ActivationProps) -> bool {
    &&& 0 <= (p.start as int) && (p.start as int) < 2 * (SCALE as int)
    &&& -10 * (SCALE as int) <= (p.slope as int) && (p.slope as int) < 10 * (SCALE as int)
    &&& (MAX_INTERACTION_DIST as int) / 2 <= (p.end as int) && (p.end as int)
        < (MAX_INTERACTION_DIST as int)
}

/// What `Curve::random` promises of its draw.
pub open spec fn curve_generated(c: Curve, fast: bool) -> bool {
    if fast {
        c matches Curve::Activation(p) && activation_gen_range(p)
    } else {
        (c matches Curve::Sin(p) && trig_gen_range(p)) || (c matches Curve::Cos(
            p,
        ) && trig_gen_range(p))
    }
}

impl CurveProps {
    /// Freshly drawn trigonometric parameters.
    pub fn random() -> (p: CurveProps)
        ensures
            trig_gen_range(p),
    {
        CurveProps {
            x_mul: rand_range(-1_200_000, 1_200_000),
            y_mul: rand_range(-6_000_000, 6_000_000),
            x_offset: rand_range(0, TURN),
        }
    }
}

impl ActivationProps {
    /// Freshly drawn activation parameters.
    pub fn random() -> (p: ActivationProps)
        ensures
            activation_gen_range(p),
    {
        ActivationProps {
            start: rand_range(0, 1_200_000),
            slope: rand_range(-6_000_000, 6_000_000),
            end: rand_range(30_000_000, MAX_INTERACTION_DIST),
        }
    }
}

impl Curve {
    /// A freshly drawn curve: an activation ramp in fast mode, otherwise a
    /// sine or a cosine wave with even odds.
    pub fn random(fast: bool) -> (c: Curve)
        ensures
            curve_generated(c, fast),
    {
        if fast {
            Curve::Activation(ActivationProps::random())
        } else if rand_bool() {
            Curve::Cos(CurveProps::random())
        } else {
            Curve::Sin(CurveProps::random())
        }
    }
}

/// A trigonometric curve's sample is bounded by the magnitude of its
/// `y_mul`, at every `t`.
pub proof fn lemma_trig_sample_bounded(p: CurveProps, t: int)
    ensures
        -vstd::math::abs(p.y_mul as int) <= spec_sample(Curve::Sin(p), t)
            <= vstd::math::abs(p.y_mul as int),
        -vstd::math::abs(p.y_mul as int) <= spec_sample(Curve::Cos(p), t)
            <= vstd::math::abs(p.y_mul as int),
{
    lemma_sin_bounded(spec_angle(p, t));
    lemma_mul_bounded_by(spec_sin(spec_angle(p, t)), p.y_mul as int);
    lemma_cos_bounded(spec_angle(p, t));
    lemma_mul_bounded_by(spec_cos(spec_angle(p, t)), p.y_mul as int);
}

/// An activation curve samples exactly `0` everywhere up to its start.
pub proof fn lemma_activation_flat(p: ActivationProps, t: int)
    requires
        t <= p.start as int,
    ensures
        spec_sample(Curve::Activation(p), t) == 0,
{
}

/// Past its start an activation curve is the ramp
/// `(t - start) * slope / SCALE`; in particular, `k` whole units past the
/// start it samples exactly `k * slope` (saturated): the ramp is linear
/// with slope `slope`.
pub proof fn lemma_activation_linear(p: ActivationProps, k: int)
    requires
        k > 0,
        k * (SCALE as int) <= i64::MAX as int,
        p.start as int + k * (SCALE as int) <= i64::MAX as int,
    ensures
        spec_sample(Curve::Activation(p), p.start as int + k * (SCALE as int))
            == clamp64(k * (p.slope as int)),
{
    let s = SCALE as int;
    let t = p.start as int + k * s;
    assert(t > p.start as int) by (nonlinear_arith)
        requires
            k > 0,
            s > 0,
            t == p.start as int + k * s,
    ;
    assert(spec_sub(t, p.start as int) == k * s) by {
        assert(k * s <= i64::MAX as int);
        assert(k * s >= 0) by (nonlinear_arith)
            requires
                k > 0,
                s > 0,
        ;
    }
    assert((k * s) * (p.slope as int) == (k * (p.slope as int)) * s)
        by (nonlinear_arith);
    lemma_mul_div_cancel(k * (p.slope as int));
}

} // verus!
