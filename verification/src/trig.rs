//! Fixed-point trigonometry on whole degrees.
//!
//! An angle is an integer number of degrees in `[0, 360)`.  Sine and cosine
//! are computed by Bhaskara's rational approximation, scaled by `SIN_SCALE`,
//! so every value the library produces is exact integer arithmetic.

use vstd::prelude::*;

verus! {

/// Scale of the fixed-point sine and cosine values: results lie in
/// `[-SIN_SCALE, SIN_SCALE]`, and `SIN_SCALE` stands for 1.0.
pub const SIN_SCALE: i64 = 10_000;

/// Bhaskara's approximation of the sine of `deg` degrees, for `deg` in
/// `[0, 180]`, scaled by `SIN_SCALE`.  Exact at 0, 30, 90, 150 and 180
/// degrees; within 0.2% of the real sine elsewhere.
pub open spec fn spec_half_sine(deg: int) -> int {
    let t = deg * (180 - deg);
    (4 * t * 10_000) / (40_500 - t)
}

/// Sine of an angle of `deg` degrees in `[0, 360)`, scaled by `SIN_SCALE`.
pub open spec fn spec_sin(deg: int) -> int {
    if deg <= 180 {
        spec_half_sine(deg)
    } else {
        -spec_half_sine(deg - 180)
    }
}

/// Cosine of an angle of `deg` degrees in `[0, 360)`, scaled by `SIN_SCALE`.
pub open spec fn spec_cos(deg: int) -> int {
    if deg + 90 < 360 {
        spec_sin(deg + 90)
    } else {
        spec_sin(deg + 90 - 360)
    }
}

/// The half-wave sine is bounded by the scale.
pub proof fn lemma_half_sine_bounds(deg: int)
    requires
        0 <= deg <= 180,
    ensures
        0 <= spec_half_sine(deg) <= SIN_SCALE,
{
    let t = deg * (180 - deg);
    assert(0 <= t && t <= 8_100) by (nonlinear_arith)
        requires
            0 <= deg <= 180,
            t == deg * (180 - deg),
    ;
    assert(4 * t * 10_000 <= (40_500 - t) * 10_000) by (nonlinear_arith)
        requires 0 <= t <= 8_100,
    ;
    vstd::arithmetic::div_mod::lemma_div_pos_is_pos(4 * t * 10_000, 40_500 - t);
    vstd::arithmetic::div_mod::lemma_multiply_divide_le(4 * t * 10_000, 40_500 - t, 10_000);
}

/// Sine and cosine values are bounded by the scale.
pub proof fn lemma_sin_cos_bounds(deg: int)
    requires
        0 <= deg < 360,
    ensures
        -SIN_SCALE <= spec_sin(deg) <= SIN_SCALE,
        -SIN_SCALE <= spec_cos(deg) <= SIN_SCALE,
{
    if deg <= 180 {
        lemma_half_sine_bounds(deg);
    } else {
        lemma_half_sine_bounds(deg - 180);
    }
    if deg + 90 < 360 {
        if deg + 90 <= 180 {
            lemma_half_sine_bounds(deg + 90);
        } else {
            lemma_half_sine_bounds(deg - 90);
        }
    } else {
        lemma_half_sine_bounds(deg - 270);
    }
}

/// Sine of `deg` degrees, scaled by `SIN_SCALE`.
pub fn sin_scaled(deg: i64) -> (r: i64)
    requires
        0 <= deg < 360,
    ensures
        r == spec_sin(deg as int),
        -SIN_SCALE <= r <= SIN_SCALE,
{
    proof {
        lemma_sin_cos_bounds(deg as int);
    }
    if deg <= 180 {
        half_sine(deg)
    } else {
        -half_sine(deg - 180)
    }
}

/// Cosine of `deg` degrees, scaled by `SIN_SCALE`.
pub fn cos_scaled(deg: i64) -> (r: i64)
    requires
        0 <= deg < 360,
    ensures
        r == spec_cos(deg as int),
        -SIN_SCALE <= r <= SIN_SCALE,
{
    proof {
        lemma_sin_cos_bounds(deg as int);
    }
    if deg + 90 < 360 {
        sin_scaled(deg + 90)
    } else {
        sin_scaled(deg + 90 - 360)
    }
}


/// Largest move distance (in position units) a turtle accepts per step.
pub const MAX_STEP: i64 = 1_000_000;

/// Largest starting coordinate magnitude a geometry mapping run accepts.
pub const POS_LIMIT: i64 = 1_000_000_000_000_000;

/// Largest symbol count one geometry mapping run accepts.
pub const MAX_SYMS: usize = 1_000_000_000;

/// Largest coordinate magnitude on which a single turtle step is defined.
pub const COORD_LIMIT: i64 = 4_000_000_000_000_000_000;

/// The displacement contributed by a step of length `dist` along a
/// direction component `trig` (scaled by `SIN_SCALE`): the product of the
/// magnitudes scaled back down, carrying the combined sign.
pub open spec fn spec_scaled(dist: int, trig: int) -> int {
    let m = ((vstd::math::abs(dist) as int) * (vstd::math::abs(trig) as int)) / (SIN_SCALE as int);
    if (dist >= 0) == (trig >= 0) {
        m
    } else {
        -m
    }
}

/// A scaled displacement never exceeds the step length in magnitude.
pub proof fn lemma_spec_scaled_bound(dist: int, trig: int)
    requires
        -(SIN_SCALE as int) <= trig <= SIN_SCALE as int,
    ensures
        vstd::math::abs(spec_scaled(dist, trig)) <= vstd::math::abs(dist),
{
    let dm = vstd::math::abs(dist) as int;
    let tm = vstd::math::abs(trig) as int;
    assert(dm * tm <= 10_000 * dm) by (nonlinear_arith)
        requires
            0 <= dm,
            0 <= tm <= 10_000,
    ;
    vstd::arithmetic::div_mod::lemma_div_pos_is_pos(dm * tm, 10_000);
    vstd::arithmetic::div_mod::lemma_multiply_divide_le(dm * tm, 10_000, dm);
}

/// The fixed-point product of a step length and a scaled trig value.
pub fn scaled(dist: i64, trig: i64) -> (r: i64)
    requires
        -MAX_STEP <= dist <= MAX_STEP,
        -SIN_SCALE <= trig <= SIN_SCALE,
    ensures
        r == spec_scaled(dist as int, trig as int),
        -MAX_STEP <= r <= MAX_STEP,
{
    proof {
        lemma_spec_scaled_bound(dist as int, trig as int);
    }
    let dm: u64 = if dist >= 0 { dist as u64 } else { (-dist) as u64 };
    let tm: u64 = if trig >= 0 { trig as u64 } else { (-trig) as u64 };
    proof {
        assert(dm as int == vstd::math::abs(dist as int) as int);
        assert(tm as int == vstd::math::abs(trig as int) as int);
        assert(dm * tm <= 10_000 * dm) by (nonlinear_arith)
            requires
                0 <= dm,
                0 <= tm <= 10_000,
        ;
        vstd::arithmetic::div_mod::lemma_div_pos_is_pos(dm as int * tm as int, 10_000);
        vstd::arithmetic::div_mod::lemma_multiply_divide_le(dm as int * tm as int, 10_000, dm as int);
    }
    let m: u64 = (dm * tm) / 10_000;
    if (dist >= 0) == (trig >= 0) {
        m as i64
    } else {
        -(m as i64)
    }
}


/// The displacement contributed by a step of length `dist` along the
/// product of two direction components (each scaled by `SIN_SCALE`): the
/// triple product of the magnitudes scaled back down by `SIN_SCALE`
/// squared, carrying the combined sign.
pub open spec fn spec_scaled2(dist: int, trig1: int, trig2: int) -> int {
    let m = ((vstd::math::abs(dist) as int) * (vstd::math::abs(trig1) as int)
        * (vstd::math::abs(trig2) as int)) / 100_000_000;
    if ((dist >= 0) == (trig1 >= 0)) == (trig2 >= 0) {
        m
    } else {
        -m
    }
}

/// A doubly scaled displacement never exceeds the step length in
/// magnitude.
pub proof fn lemma_spec_scaled2_bound(dist: int, trig1: int, trig2: int)
    requires
        -(SIN_SCALE as int) <= trig1 <= SIN_SCALE as int,
        -(SIN_SCALE as int) <= trig2 <= SIN_SCALE as int,
    ensures
        vstd::math::abs(spec_scaled2(dist, trig1, trig2)) <= vstd::math::abs(dist),
{
    let dm = vstd::math::abs(dist) as int;
    let t1 = vstd::math::abs(trig1) as int;
    let t2 = vstd::math::abs(trig2) as int;
    assert(dm * t1 * t2 <= 100_000_000 * dm) by (nonlinear_arith)
        requires
            0 <= dm,
            0 <= t1 <= 10_000,
            0 <= t2 <= 10_000,
    ;
    assert(0 <= dm * t1 * t2) by (nonlinear_arith)
        requires
            0 <= dm,
            0 <= t1,
            0 <= t2,
    ;
    vstd::arithmetic::div_mod::lemma_div_pos_is_pos(dm * t1 * t2, 100_000_000);
    vstd::arithmetic::div_mod::lemma_multiply_divide_le(dm * t1 * t2, 100_000_000, dm);
}

/// The fixed-point product of a step length and two scaled trig values.
pub fn scaled2(dist: i64, trig1: i64, trig2: i64) -> (r: i64)
    requires
        -MAX_STEP <= dist <= MAX_STEP,
        -SIN_SCALE <= trig1 <= SIN_SCALE,
        -SIN_SCALE <= trig2 <= SIN_SCALE,
    ensures
        r == spec_scaled2(dist as int, trig1 as int, trig2 as int),
        -MAX_STEP <= r <= MAX_STEP,
{
    proof {
        lemma_spec_scaled2_bound(dist as int, trig1 as int, trig2 as int);
    }
    let dm: u64 = if dist >= 0 { dist as u64 } else { (-dist) as u64 };
    let t1: u64 = if trig1 >= 0 { trig1 as u64 } else { (-trig1) as u64 };
    let t2: u64 = if trig2 >= 0 { trig2 as u64 } else { (-trig2) as u64 };
    proof {
        assert(dm as int == vstd::math::abs(dist as int) as int);
        assert(t1 as int == vstd::math::abs(trig1 as int) as int);
        assert(t2 as int == vstd::math::abs(trig2 as int) as int);
        assert(dm * t1 * t2 <= 100_000_000 * dm) by (nonlinear_arith)
            requires
                0 <= dm <= 1_000_000,
                0 <= t1 <= 10_000,
                0 <= t2 <= 10_000,
        ;
        assert(dm * t1 <= 10_000_000_000u64) by (nonlinear_arith)
            requires
                0 <= dm <= 1_000_000,
                0 <= t1 <= 10_000,
        ;
        vstd::arithmetic::div_mod::lemma_div_pos_is_pos(dm as int * t1 as int * t2 as int,
            100_000_000);
        vstd::arithmetic::div_mod::lemma_multiply_divide_le(dm as int * t1 as int * t2 as int,
            100_000_000, dm as int);
    }
    let m: u64 = (dm * t1 * t2) / 100_000_000;
    if ((dist >= 0) == (trig1 >= 0)) == (trig2 >= 0) {
        m as i64
    } else {
        -(m as i64)
    }
}

fn half_sine(deg: i64) -> (r: i64)
    requires
        0 <= deg <= 180,
    ensures
        r == spec_half_sine(deg as int),
        0 <= r <= SIN_SCALE,
{
    proof {
        lemma_half_sine_bounds(deg as int);
        assert(0 <= (deg as int) * (180 - deg as int) <= 8_100) by (nonlinear_arith)
            requires 0 <= deg <= 180,
        ;
    }
    let d = deg as u64;
    let t: u64 = d * (180 - d);
    let r: u64 = (4 * t * 10_000) / (40_500 - t);
    r as i64
}

} // verus!
