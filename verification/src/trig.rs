//! Fixed-point sine and cosine.
//!
//! One turn of the circle is `TURN` micro-radians; the wave is the classic
//! parabolic arch `4 u (h - u) / h^2` on each half turn, scaled to `SCALE`,
//! so every sample lies in `[-SCALE, SCALE]` and the wave is exactly `0` at
//! `0`, at `HALF_TURN` and at `TURN`.

use vstd::prelude::*;
use crate::fixed::SCALE;

verus! {

/// Micro-radians in one full turn (two pi, rounded to a multiple of four).
pub const TURN: i64 = 3_769_912;

/// Micro-radians in half a turn.
pub const HALF_TURN: i64 = 1_884_956;

/// Micro-radians in a quarter turn.
pub const QUARTER_TURN: i64 = 942_478;

/// One parabolic arch: the wave on `[0, HALF_TURN]`.
pub open spec fn sin_arch(u: int) -> int {
    (4 * u * ((HALF_TURN as int) - u) * (SCALE as int)) / ((HALF_TURN as int)
        * (HALF_TURN as int))
}

/// The exact value of `sin_fp`: a positive arch on the first half turn of
/// the reduced angle, a negative arch on the second.
pub open spec fn spec_sin(x: int) -> int {
    let m = x % (TURN as int);
    if m < HALF_TURN as int {
        sin_arch(m)
    } else {
        -sin_arch(m - HALF_TURN as int)
    }
}

/// The exact value of `cos_fp`: the sine a quarter turn ahead.
pub open spec fn spec_cos(x: int) -> int {
    spec_sin(x % (TURN as int) + QUARTER_TURN as int)
}

/// The arch stays within `[0, SCALE]`.
pub proof fn lemma_sin_arch_bounds(u: int)
    requires
        0 <= u <= HALF_TURN as int,
    ensures
        0 <= sin_arch(u) <= SCALE as int,
{
    let h = HALF_TURN as int;
    let s = SCALE as int;
    assert(0 <= 4 * u * (h - u) * s <= h * h * s) by (nonlinear_arith)
        requires
            0 <= u <= h,
            s > 0,
    ;
    vstd::arithmetic::div_mod::lemma_div_pos_is_pos(4 * u * (h - u) * s, h * h);
    vstd::arithmetic::div_mod::lemma_div_is_ordered(
        4 * u * (h - u) * s,
        h * h * s,
        h * h,
    );
    vstd::arithmetic::div_mod::lemma_div_multiples_vanish(s, h * h);
    assert(h * h * s == (h * h) * s) by (nonlinear_arith);
}

/// Every sine sample lies in `[-SCALE, SCALE]`.
pub proof fn lemma_sin_bounded(x: int)
    ensures
        -(SCALE as int) <= spec_sin(x) <= SCALE as int,
{
    let t = TURN as int;
    let m = x % t;
    vstd::arithmetic::div_mod::lemma_mod_division_less_than_divisor(x, t);
    if m < HALF_TURN as int {
        lemma_sin_arch_bounds(m);
    } else {
        lemma_sin_arch_bounds(m - HALF_TURN as int);
    }
}

/// Every cosine sample lies in `[-SCALE, SCALE]`.
pub proof fn lemma_cos_bounded(x: int)
    ensures
        -(SCALE as int) <= spec_cos(x) <= SCALE as int,
{
    let t = TURN as int;
    vstd::arithmetic::div_mod::lemma_mod_division_less_than_divisor(x, t);
    lemma_sin_bounded(x % t + QUARTER_TURN as int);
}

/// Reduces an angle into `[0, TURN)`, agreeing with the Euclidean remainder.
fn reduce_turn(x: i64) -> (m: i64)
    ensures
        m as int == (x as int) % (TURN as int),
        0 <= m < TURN,
{
    let ghost t = TURN as int;
    if x >= 0 {
        let m: u64 = (x as u64) % (TURN as u64);
        proof {
            vstd::arithmetic::div_mod::lemma_mod_division_less_than_divisor(
                x as int,
                t,
            );
        }
        m as i64
    } else {
        let n: u128 = (-(x as i128)) as u128;
        let k: u128 = n % (TURN as u128);
        proof {
            vstd::arithmetic::div_mod::lemma_mod_division_less_than_divisor(
                n as int,
                t,
            );
            vstd::arithmetic::div_mod::lemma_fundamental_div_mod(n as int, t);
            let q = (n as int) / t;
            let k_i = (n as int) % t;
            if k_i == 0 {
                assert(x as int == (-q) * t + 0) by (nonlinear_arith)
                    requires
                        n as int == q * t + k_i,
                        k_i == 0,
                        x as int == -(n as int),
                ;
                vstd::arithmetic::div_mod::lemma_fundamental_div_mod_converse_mod(
                    x as int,
                    t,
                    -q,
                    0,
                );
            } else {
                assert(x as int == (-q - 1) * t + (t - k_i)) by (nonlinear_arith)
                    requires
                        n as int == q * t + k_i,
                        x as int == -(n as int),
                ;
                vstd::arithmetic::div_mod::lemma_fundamental_div_mod_converse_mod(
                    x as int,
                    t,
                    -q - 1,
                    t - k_i,
                );
            }
        }
        if k == 0 {
            0
        } else {
            TURN - (k as i64)
        }
    }
}

/// One arch of the wave, exactly `sin_arch(u)`.
fn arch(u: i64) -> (r: i64)
    requires
        0 <= u <= HALF_TURN,
    ensures
        r as int == sin_arch(u as int),
        0 <= r <= SCALE,
{
    let ghost h = HALF_TURN as int;
    let ghost s = SCALE as int;
    assert(0 <= 4 * (u as int) * (h - u as int) <= h * h) by (nonlinear_arith)
        requires
            0 <= u as int <= h,
    ;
    let a: u128 = 4 * (u as u128) * ((HALF_TURN as u128) - (u as u128))
        * (SCALE as u128);
    let d: u128 = (HALF_TURN as u128) * (HALF_TURN as u128);
    assert(4 * (u as int) * (h - u as int) * s <= h * h * s) by (nonlinear_arith)
        requires
            0 <= 4 * (u as int) * (h - u as int) <= h * h,
            s > 0,
    ;
    let q: u128 = a / d;
    proof {
        lemma_sin_arch_bounds(u as int);
    }
    q as i64
}

/// Fixed-point sine of an angle in micro-radians; exactly `spec_sin`.
pub fn sin_fp(x: i64) -> (r: i64)
    ensures
        r as int == spec_sin(x as int),
        -SCALE <= r <= SCALE,
{
    let m = reduce_turn(x);
    if m < HALF_TURN {
        arch(m)
    } else {
        let r = arch(m - HALF_TURN);
        -r
    }
}

/// Fixed-point cosine of an angle in micro-radians; exactly `spec_cos`.
pub fn cos_fp(x: i64) -> (r: i64)
    ensures
        r as int == spec_cos(x as int),
        -SCALE <= r <= SCALE,
{
    let m = reduce_turn(x);
    sin_fp(m + QUARTER_TURN)
}

} // verus!
