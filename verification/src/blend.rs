//! Exact integer arithmetic for the two-frame blend.
//!
//! Snapshots arrive nominally every [`STEP_MICROS`] microseconds.  A
//! display tick that runs `e` microseconds after the newest snapshot
//! blends a new value `a` and an old value `b` with weights `e / STEP`
//! and `1 - e / STEP`.  The weights are deliberately not clamped: once
//! `e` exceeds the step, the blend extrapolates past the newest
//! snapshot instead of holding steady.  All arithmetic is exact over
//! the integers, with the quotient rounded to the nearest integer,
//! halves away from zero.

use vstd::prelude::*;
use vstd::arithmetic::div_mod::{
    lemma_div_multiples_vanish_fancy, lemma_div_pos_is_pos, lemma_fundamental_div_mod,
    lemma_mod_division_less_than_divisor,
};

verus! {

/// Nominal server tick period, in microseconds: a well-behaved server
/// emits a frame every 0.1 s.
pub const STEP_MICROS: u64 = 100_000;

/// Largest elapsed time the blend accepts, in microseconds (about 71
/// minutes); a caller caps what the clock reports at this value.
pub const MAX_ELAPSED_MICROS: u64 = 4_294_967_295;

/// Largest coordinate or life magnitude a well-formed snapshot record
/// may carry.
pub const COORD_LIMIT: i64 = 1_099_511_627_776;

/// Largest frame sequence number a well-formed snapshot may carry.
pub const NUMBER_LIMIT: u64 = 1_073_741_824;

/// Every blended value stays within this magnitude, even when the
/// blend extrapolates.
pub const LIVE_COORD_LIMIT: i64 = 288_230_376_151_711_744;

/// `t / d` rounded to the nearest integer, halves away from zero
/// (meaningful for `d > 0`).
pub open spec fn round_div(t: int, d: int) -> int {
    if t >= 0 {
        (2 * t + d) / (2 * d)
    } else {
        -((2 * (-t) + d) / (2 * d))
    }
}

/// The two-frame blend of a new value `a` and an old value `b` at
/// elapsed time `e`: the rounded value of
/// `a * (e / STEP) + b * (1 - e / STEP)`.
pub open spec fn blend_round(a: int, b: int, e: int) -> int {
    round_div(a * e + b * ((STEP_MICROS as int) - e), STEP_MICROS as int)
}

/// A nonnegative numerator divided by a positive denominator stays
/// under `cap` as soon as the numerator is under `den * (cap + 1)`.
proof fn lemma_udiv_bound(num: int, den: int, cap: int)
    requires
        0 <= num,
        0 < den,
        0 <= cap,
        num < den * (cap + 1),
    ensures
        0 <= num / den <= cap,
{
    lemma_fundamental_div_mod(num, den);
    lemma_mod_division_less_than_divisor(num, den);
    lemma_div_pos_is_pos(num, den);
    if num / den > cap {
        assert(den * (num / den) >= den * (cap + 1)) by (nonlinear_arith)
            requires
                0 < den,
                num / den >= cap + 1,
        ;
        assert(false);
    }
}

/// At elapsed time zero the blend returns the old value exactly.
pub proof fn lemma_blend_at_zero(a: int, b: int)
    ensures
        blend_round(a, b, 0) == b,
{
    let s = STEP_MICROS as int;
    assert(a * 0 == 0) by (nonlinear_arith);
    let t = b * s;
    if t >= 0 {
        assert(2 * t + s == (2 * s) * b + s) by (nonlinear_arith)
            requires
                t == b * s,
        ;
        lemma_div_multiples_vanish_fancy(b, s, 2 * s);
    } else {
        assert(2 * (-t) + s == (2 * s) * (-b) + s) by (nonlinear_arith)
            requires
                t == b * s,
        ;
        lemma_div_multiples_vanish_fancy(-b, s, 2 * s);
    }
}

/// Blend a new value `a` and an old value `b` at elapsed time `e`
/// microseconds, rounding to the nearest integer.
pub fn blend(a: i64, b: i64, e: u64) -> (r: i64)
    requires
        -COORD_LIMIT <= a <= COORD_LIMIT,
        -COORD_LIMIT <= b <= COORD_LIMIT,
        e <= MAX_ELAPSED_MICROS,
    ensures
        r == blend_round(a as int, b as int, e as int),
        -LIVE_COORD_LIMIT <= r <= LIVE_COORD_LIMIT,
{
    let ghost cm: int = (COORD_LIMIT as int) * (MAX_ELAPSED_MICROS as int);
    proof {
        assert((a as int) * (e as int) <= cm && (a as int) * (e as int) >= -cm)
            by (nonlinear_arith)
            requires
                cm == (COORD_LIMIT as int) * (MAX_ELAPSED_MICROS as int),
                -(COORD_LIMIT as int) <= a as int <= COORD_LIMIT as int,
                0 <= e as int <= MAX_ELAPSED_MICROS as int,
        ;
        assert((b as int) * ((STEP_MICROS as int) - (e as int)) <= cm && (b as int) * ((
        STEP_MICROS as int) - (e as int)) >= -cm) by (nonlinear_arith)
            requires
                cm == (COORD_LIMIT as int) * (MAX_ELAPSED_MICROS as int),
                -(COORD_LIMIT as int) <= b as int <= COORD_LIMIT as int,
                0 <= e as int <= MAX_ELAPSED_MICROS as int,
                0 < STEP_MICROS as int <= MAX_ELAPSED_MICROS as int,
        ;
    }
    let ai: i128 = a as i128;
    let bi: i128 = b as i128;
    let ei: i128 = e as i128;
    let si: i128 = STEP_MICROS as i128;
    let t: i128 = ai * ei + bi * (si - ei);
    let den: u128 = 2 * (STEP_MICROS as u128);
    if t >= 0 {
        let num: u128 = 2 * (t as u128) + (STEP_MICROS as u128);
        let q: u128 = num / den;
        proof {
            lemma_udiv_bound(num as int, den as int, LIVE_COORD_LIMIT as int);
        }
        q as i64
    } else {
        let num: u128 = 2 * ((-t) as u128) + (STEP_MICROS as u128);
        let q: u128 = num / den;
        proof {
            lemma_udiv_bound(num as int, den as int, LIVE_COORD_LIMIT as int);
        }
        -(q as i64)
    }
}

/// The displayed server time, in microseconds: the blend of the two
/// frames' sequence numbers (each `number * STEP` microseconds of
/// server time) with the same unclamped weights the entity blend uses.
pub fn server_time(n0: u64, nm: u64, e: u64) -> (r: i64)
    requires
        n0 <= NUMBER_LIMIT,
        nm <= NUMBER_LIMIT,
        e <= MAX_ELAPSED_MICROS,
    ensures
        r == (n0 as int) * (e as int) + (nm as int) * ((STEP_MICROS as int) - (e as int)),
{
    let ghost nm_bound: int = (NUMBER_LIMIT as int) * (MAX_ELAPSED_MICROS as int);
    proof {
        assert((n0 as int) * (e as int) <= nm_bound && (n0 as int) * (e as int) >= 0)
            by (nonlinear_arith)
            requires
                nm_bound == (NUMBER_LIMIT as int) * (MAX_ELAPSED_MICROS as int),
                0 <= n0 as int <= NUMBER_LIMIT as int,
                0 <= e as int <= MAX_ELAPSED_MICROS as int,
        ;
        assert((nm as int) * ((STEP_MICROS as int) - (e as int)) <= nm_bound && (nm as int) * ((
        STEP_MICROS as int) - (e as int)) >= -nm_bound) by (nonlinear_arith)
            requires
                nm_bound == (NUMBER_LIMIT as int) * (MAX_ELAPSED_MICROS as int),
                0 <= nm as int <= NUMBER_LIMIT as int,
                0 <= e as int <= MAX_ELAPSED_MICROS as int,
                0 < STEP_MICROS as int <= MAX_ELAPSED_MICROS as int,
        ;
    }
    let t: i128 = (n0 as i128) * (e as i128) + (nm as i128) * ((STEP_MICROS as i128) - (
    e as i128));
    t as i64
}

} // verus!
