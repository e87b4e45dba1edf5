//! Saturating integer arithmetic and the per-tick movement step.
//!
//! Positions are unbounded `i64` micro-units; motion saturates at the
//! numeric range instead of wrapping, and the contracts state the
//! saturation exactly.

use vstd::prelude::*;
use crate::components::{DT_MAX_US, INV_SQRT2_DEN, INV_SQRT2_NUM, MICROS_PER_SEC, SPEED_LIMIT};

verus! {

/// `v` clipped into the `i64` range.
pub open spec fn clip_i64(v: int) -> int {
    if v < i64::MIN as int {
        i64::MIN as int
    } else if v > i64::MAX as int {
        i64::MAX as int
    } else {
        v
    }
}

/// Saturating addition on `i64`.
pub fn sat_add_i64(a: i64, b: i64) -> (r: i64)
    ensures
        r as int == clip_i64(a + b),
{
    if b >= 0 {
        if a > i64::MAX - b {
            i64::MAX
        } else {
            a + b
        }
    } else {
        if a < i64::MIN - b {
            i64::MIN
        } else {
            a + b
        }
    }
}

/// Saturating subtraction on `i64`.
pub fn sat_sub_i64(a: i64, b: i64) -> (r: i64)
    ensures
        r as int == clip_i64(a - b),
{
    if b >= 0 {
        if a < i64::MIN + b {
            i64::MIN
        } else {
            a - b
        }
    } else {
        if a > i64::MAX + b {
            i64::MAX
        } else {
            a - b
        }
    }
}

/// Distance covered on one axis in one tick: speed * dt scaled back to
/// micro-units. Exact integer division, truncated.
pub open spec fn spec_axis_step(speed: int, dt: int) -> int {
    speed * dt / (MICROS_PER_SEC as int)
}

/// Per-axis distance for diagonal movement: the straight step scaled by
/// the rational approximation of 1/sqrt(2).
pub open spec fn spec_diag_step(speed: int, dt: int) -> int {
    spec_axis_step(speed, dt) * (INV_SQRT2_NUM as int) / (INV_SQRT2_DEN as int)
}

/// Upper bound on any one-tick axis step given the speed bound.
pub const STEP_LIMIT: i64 = 500_000_000_000;

pub proof fn lemma_axis_step_bounds(speed: int, dt: int)
    requires
        0 <= speed <= SPEED_LIMIT,
        0 <= dt <= DT_MAX_US,
    ensures
        0 <= spec_axis_step(speed, dt) <= STEP_LIMIT,
        0 <= spec_diag_step(speed, dt) <= spec_axis_step(speed, dt),
{
    assert(0 <= speed * dt <= SPEED_LIMIT * DT_MAX_US) by (nonlinear_arith)
        requires
            0 <= speed <= SPEED_LIMIT,
            0 <= dt <= DT_MAX_US,
    ;
    assert(0 <= spec_axis_step(speed, dt) <= STEP_LIMIT) by (nonlinear_arith)
        requires
            0 <= speed * dt <= SPEED_LIMIT * DT_MAX_US,
            spec_axis_step(speed, dt) == speed * dt / (MICROS_PER_SEC as int),
    ;
    let s = spec_axis_step(speed, dt);
    assert(0 <= s * (INV_SQRT2_NUM as int) / (INV_SQRT2_DEN as int) <= s) by (nonlinear_arith)
        requires
            0 <= s,
    ;
}

/// The straight-line step for one tick.
pub fn axis_step(speed: i64, dt: i64) -> (r: i64)
    requires
        0 <= speed <= SPEED_LIMIT,
        0 <= dt <= DT_MAX_US,
    ensures
        r as int == spec_axis_step(speed as int, dt as int),
        0 <= r <= STEP_LIMIT,
{
    proof {
        lemma_axis_step_bounds(speed as int, dt as int);
        assert(0 <= speed * dt <= SPEED_LIMIT * DT_MAX_US) by (nonlinear_arith)
            requires
                0 <= speed <= SPEED_LIMIT,
                0 <= dt <= DT_MAX_US,
        ;
    }
    (speed * dt) / MICROS_PER_SEC
}

/// The per-axis step for diagonal movement in one tick.
pub fn diag_step(speed: i64, dt: i64) -> (r: i64)
    requires
        0 <= speed <= SPEED_LIMIT,
        0 <= dt <= DT_MAX_US,
    ensures
        r as int == spec_diag_step(speed as int, dt as int),
        0 <= r <= STEP_LIMIT,
{
    let s = axis_step(speed, dt);
    proof {
        lemma_axis_step_bounds(speed as int, dt as int);
        assert(s * INV_SQRT2_NUM <= STEP_LIMIT * INV_SQRT2_NUM) by (nonlinear_arith)
            requires
                0 <= s <= STEP_LIMIT,
        ;
    }
    (s * INV_SQRT2_NUM) / INV_SQRT2_DEN
}

/// Diagonal movement preserves the speed up to truncation: twice the
/// square of the diagonal per-axis step stays at or under the square of
/// the straight step, so the diagonal velocity's magnitude never
/// exceeds the configured speed; and one more micro-unit per axis would
/// already overshoot it, so the step is the largest such.
pub proof fn lemma_diagonal_not_faster(speed: int, dt: int)
    requires
        0 <= speed <= SPEED_LIMIT,
        0 <= dt <= DT_MAX_US,
    ensures
        2 * spec_diag_step(speed, dt) * spec_diag_step(speed, dt)
            <= spec_axis_step(speed, dt) * spec_axis_step(speed, dt),
        2 * (spec_diag_step(speed, dt) + 1) * (spec_diag_step(speed, dt) + 1) * (
        (INV_SQRT2_DEN as int) * (INV_SQRT2_DEN as int)) > spec_axis_step(speed, dt)
            * spec_axis_step(speed, dt) * ((INV_SQRT2_DEN as int) * (INV_SQRT2_DEN as int) - 1),
{
    lemma_axis_step_bounds(speed, dt);
    let s = spec_axis_step(speed, dt);
    let d = spec_diag_step(speed, dt);
    let num = INV_SQRT2_NUM as int;
    let den = INV_SQRT2_DEN as int;
    // Truncating division: d * DEN <= s * NUM < (d + 1) * DEN.
    vstd::arithmetic::div_mod::lemma_fundamental_div_mod(s * num, den);
    vstd::arithmetic::div_mod::lemma_mod_bound(s * num, den);
    assert(d * den <= s * num < (d + 1) * den) by (nonlinear_arith)
        requires
            s * num == den * ((s * num) / den) + (s * num) % den,
            0 <= (s * num) % den < den,
            d == (s * num) / den,
    ;
    // 2 * NUM^2 == DEN^2 - 1, so squaring the two inequalities gives
    // the two bounds.
    assert(2 * d * d <= s * s) by (nonlinear_arith)
        requires
            0 <= d,
            0 <= s,
            d * 665_857 <= s * 470_832,
    ;
    assert(0 <= s * num) by (nonlinear_arith)
        requires
            0 <= s,
            0 < num,
    ;
    assert(2 * (d + 1) * (d + 1) * (den * den) > s * s * (den * den - 1)) by (nonlinear_arith)
        requires
            0 <= s * num,
            s * num < (d + 1) * den,
            num == 470_832,
            den == 665_857,
    ;
}

} // verus!
