//! Saturating fixed-point arithmetic on `i64` micro-units.
//!
//! A scalar `x` stands for the real number `x / SCALE`. Products and
//! quotients are computed exactly in `i128` and then clamped to the `i64`
//! range, so every operation is total and its result is pinned down by the
//! spec functions below.

use vstd::prelude::*;

verus! {

/// Micro-units per whole unit.
pub const SCALE: i64 = 600_000;

/// Clamps a mathematical integer to the `i64` range.
pub open spec fn clamp64(x: int) -> int {
    if x > i64::MAX as int {
        i64::MAX as int
    } else if x < i64::MIN as int {
        i64::MIN as int
    } else {
        x
    }
}

/// Division rounding toward zero (the behaviour of machine division),
/// defined for a positive divisor.
pub open spec fn div_trunc(a: int, b: int) -> int {
    if a >= 0 {
        a / b
    } else {
        -((-a) / b)
    }
}

/// The exact value of `fp_add`.
pub open spec fn spec_add(a: int, b: int) -> int {
    clamp64(a + b)
}

/// The exact value of `fp_sub`.
pub open spec fn spec_sub(a: int, b: int) -> int {
    clamp64(a - b)
}

/// The exact value of `fp_mul`: the fixed-point product `a * b / SCALE`.
pub open spec fn spec_mul(a: int, b: int) -> int {
    clamp64(div_trunc(a * b, SCALE as int))
}

/// The exact value of `fp_div`: the fixed-point quotient `a * SCALE / b`.
pub open spec fn spec_div(a: int, b: int) -> int {
    clamp64(div_trunc(a * (SCALE as int), b))
}

/// Scaling a value up by `SCALE` and dividing it back down is exact.
pub proof fn lemma_mul_div_cancel(m: int)
    ensures
        div_trunc(m * (SCALE as int), SCALE as int) == m,
{
    let s = SCALE as int;
    if m >= 0 {
        vstd::arithmetic::div_mod::lemma_div_multiples_vanish(m, s);
        assert(m * s == s * m) by (nonlinear_arith);
    } else {
        assert(-(m * s) == (-m) * s) by (nonlinear_arith);
        assert((-m) * s == s * (-m)) by (nonlinear_arith);
        vstd::arithmetic::div_mod::lemma_div_multiples_vanish(-m, s);
    }
}

/// A fixed-point product with a factor in `[-SCALE, SCALE]` is bounded by
/// the magnitude of the other factor.
pub proof fn lemma_mul_bounded_by(a: int, b: int)
    requires
        -(SCALE as int) <= a <= SCALE as int,
    ensures
        -vstd::math::abs(b) <= spec_mul(a, b) <= vstd::math::abs(b),
{
    let s = SCALE as int;
    let p = a * b;
    let m = vstd::math::abs(b) as int;
    assert(-(s * m) <= p <= s * m) by (nonlinear_arith)
        requires
            -s <= a <= s,
            p == a * b,
            m >= b,
            m >= -b,
            m >= 0,
    ;
    vstd::arithmetic::div_mod::lemma_div_multiples_vanish(m, s);
    if p >= 0 {
        vstd::arithmetic::div_mod::lemma_div_pos_is_pos(p, s);
        vstd::arithmetic::div_mod::lemma_div_is_ordered(p, s * m, s);
    } else {
        vstd::arithmetic::div_mod::lemma_div_pos_is_pos(-p, s);
        vstd::arithmetic::div_mod::lemma_div_is_ordered(-p, s * m, s);
    }
}

/// Saturating addition.
pub fn fp_add(a: i64, b: i64) -> (r: i64)
    ensures
        r as int == spec_add(a as int, b as int),
{
    let s: i128 = a as i128 + b as i128;
    if s > i64::MAX as i128 {
        i64::MAX
    } else if s < i64::MIN as i128 {
        i64::MIN
    } else {
        s as i64
    }
}

/// Saturating subtraction.
pub fn fp_sub(a: i64, b: i64) -> (r: i64)
    ensures
        r as int == spec_sub(a as int, b as int),
{
    let s: i128 = a as i128 - b as i128;
    if s > i64::MAX as i128 {
        i64::MAX
    } else if s < i64::MIN as i128 {
        i64::MIN
    } else {
        s as i64
    }
}

/// Truncating division of an exact `i128` product by a positive divisor,
/// then clamping to `i64`.
pub(crate) fn div_clamp(p: i128, d: i128) -> (r: i64)
    requires
        0 < d,
        -0x40000000000000000000000000000000 <= p
            <= 0x40000000000000000000000000000000,
    ensures
        r as int == clamp64(div_trunc(p as int, d as int)),
{
    let neg: bool = p < 0;
    let mag: u128 = if neg {
        (-p) as u128
    } else {
        p as u128
    };
    let q: u128 = mag / (d as u128);
    assert(q <= mag) by {
        vstd::arithmetic::div_mod::lemma_div_is_ordered_by_denominator(
            mag as int,
            1,
            d as int,
        );
    }
    if neg {
        if q > 0x8000000000000000u128 {
            i64::MIN
        } else {
            (-(q as i128)) as i64
        }
    } else {
        if q > 0x7FFFFFFFFFFFFFFFu128 {
            i64::MAX
        } else {
            q as i64
        }
    }
}

/// Fixed-point multiplication: `a * b / SCALE`, rounded toward zero,
/// saturating.
pub fn fp_mul(a: i64, b: i64) -> (r: i64)
    ensures
        r as int == spec_mul(a as int, b as int),
{
    assert(-0x40000000000000000000000000000000 <= (a as int) * (b as int)
        <= 0x40000000000000000000000000000000) by (nonlinear_arith)
        requires
            -0x8000000000000000 <= a as int <= 0x7FFFFFFFFFFFFFFF,
            -0x8000000000000000 <= b as int <= 0x7FFFFFFFFFFFFFFF,
    ;
    let p: i128 = (a as i128) * (b as i128);
    div_clamp(p, SCALE as i128)
}

/// Fixed-point division: `a * SCALE / b`, rounded toward zero, saturating.
/// The divisor must be positive.
pub fn fp_div(a: i64, b: i64) -> (r: i64)
    requires
        b > 0,
    ensures
        r as int == spec_div(a as int, b as int),
{
    assert(-0x40000000000000000000000000000000 <= (a as int) * (SCALE as int)
        <= 0x40000000000000000000000000000000) by (nonlinear_arith)
        requires
            -0x8000000000000000 <= a as int <= 0x7FFFFFFFFFFFFFFF,
    ;
    let p: i128 = (a as i128) * (SCALE as i128);
    div_clamp(p, b as i128)
}

} // verus!
