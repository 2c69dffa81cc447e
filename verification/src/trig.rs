//! Fixed-point sine.
//!
//! Angles are measured in "angle units": `TURN` units make a full turn, so
//! reduction of an arbitrary angle is a single division and remainder.  On
//! half a turn the sine is approximated by Bhaskara's rational formula,
//! scaled so that the result lies in `[-FRAC, FRAC]`, the Q16.16 encodings of
//! -1 and 1.  The approximation is exact at 0, a quarter turn and half a
//! turn, which the contracts below expose where callers need it.

use vstd::prelude::*;
use vstd::arithmetic::div_mod::lemma_div_pos_is_pos;
use vstd::arithmetic::div_mod::lemma_fundamental_div_mod_converse_div;
use vstd::arithmetic::div_mod::lemma_mod_division_less_than_divisor;
use vstd::arithmetic::div_mod::lemma_multiply_divide_le;

verus! {

/// One in the Q16.16 fixed-point format used throughout the crate.
pub const FRAC: i64 = 65536;

/// Angle units in a full turn.
pub const TURN: i64 = 65536;

/// Angle units in half a turn, the period over which the sine changes sign.
pub const HALF_TURN: i64 = 32768;

/// `TURN / (2 * pi)`, rounded to the nearest integer: converts a Q16.16
/// radian value into angle units.
pub const RAD_TO_TURN: i64 = 10430;

/// A multiple of `TURN * 65536` added before reduction so that the dividend
/// stays nonnegative; being a multiple of a full turn it does not change the
/// reduced angle.
pub const ANGLE_BIAS: i64 = 4 * 65536 * 65536;

/// Smallest Q16.16 radian argument `sin_fx` accepts.
pub const SIN_ARG_MIN: i64 = -1000000;

/// Largest Q16.16 radian argument `sin_fx` accepts.
pub const SIN_ARG_MAX: i64 = 10000000000000;

/// Bhaskara's sine approximation on half a turn, scaled to Q16.16: for
/// `a` in `[0, HALF_TURN]` this approximates `sin(pi * a / HALF_TURN) * FRAC`.
pub open spec fn half_sine(a: int) -> int
    recommends
        0 <= a <= HALF_TURN,
{
    let p = a * (HALF_TURN - a);
    (16 * p * FRAC) / (5 * HALF_TURN * HALF_TURN - 4 * p)
}

/// Signed sine over a full turn of angle units.
pub open spec fn sine(a: int) -> int
    recommends
        0 <= a < TURN,
{
    if a < HALF_TURN {
        half_sine(a)
    } else {
        -half_sine(a - HALF_TURN)
    }
}

/// The angle units corresponding to a Q16.16 radian value.
pub open spec fn angle(v: int) -> int {
    ((v * RAD_TO_TURN + ANGLE_BIAS) / 65536) % (TURN as int)
}

/// The crate's fixed-point sine: Q16.16 radians in, Q16.16 value out.
pub open spec fn sin_fx_spec(v: int) -> int {
    sine(angle(v))
}

/// On half a turn the approximation stays within the Q16.16 encodings of
/// 0 and 1.
pub proof fn lemma_half_sine_bounds(a: int)
    requires
        0 <= a <= HALF_TURN,
    ensures
        0 <= half_sine(a) <= FRAC,
{
    let p = a * (HALF_TURN - a);
    assert(0 <= p && p <= 268435456) by (nonlinear_arith)
        requires
            p == a * (32768 - a),
            0 <= a <= 32768;
    let num = 16 * p * FRAC;
    let den = 5 * HALF_TURN * HALF_TURN - 4 * p;
    assert(num <= den * 65536);
    lemma_multiply_divide_le(num, den, FRAC as int);
    lemma_div_pos_is_pos(num, den);
}

/// Over a full turn the sine stays within the Q16.16 encodings of -1 and 1.
pub proof fn lemma_sine_bounds(a: int)
    requires
        0 <= a < TURN,
    ensures
        -FRAC <= sine(a) <= FRAC,
{
    if a < HALF_TURN {
        lemma_half_sine_bounds(a);
    } else {
        lemma_half_sine_bounds(a - HALF_TURN);
    }
}

/// Reduction always lands in a single turn.
pub proof fn lemma_angle_range(v: int)
    ensures
        0 <= angle(v) < TURN,
{
    lemma_mod_division_less_than_divisor((v * RAD_TO_TURN + ANGLE_BIAS) / 65536, TURN as int);
}

/// The fixed-point sine of any angle stays within the Q16.16 encodings of
/// -1 and 1.
pub proof fn lemma_sin_fx_bounds(v: int)
    ensures
        -FRAC <= sin_fx_spec(v) <= FRAC,
{
    lemma_angle_range(v);
    lemma_sine_bounds(angle(v));
}

/// The approximation is exact where the sine vanishes or peaks: at zero,
/// a quarter turn, half a turn and three quarters of a turn.
pub proof fn lemma_sine_exact_points()
    ensures
        sine(0) == 0,
        sine(16384) == FRAC,
        sine(HALF_TURN as int) == 0,
        sine(49152) == -FRAC,
{
    assert(16384 * (32768 - 16384) == 268435456) by (nonlinear_arith);
    assert(16 * 268435456 * 65536 == 281474976710656) by (nonlinear_arith);
    assert(5 * 32768 * 32768 - 4 * 268435456 == 4294967296) by (nonlinear_arith);
    assert(281474976710656 == 65536 * 4294967296 + 0) by (nonlinear_arith);
    lemma_fundamental_div_mod_converse_div(281474976710656, 4294967296, 65536, 0);
}

/// A zero radian argument reduces to a zero angle: the bias is a whole
/// number of turns.
pub proof fn lemma_sin_fx_zero()
    ensures
        sin_fx_spec(0) == 0,
{
}

fn half_sine_units(a: i64) -> (r: i64)
    requires
        0 <= a <= HALF_TURN,
    ensures
        r == half_sine(a as int),
        0 <= r <= FRAC,
{
    proof {
        assert(0 <= a * (32768 - a) && a * (32768 - a) <= 268435456) by (nonlinear_arith)
            requires
                0 <= a <= 32768;
    }
    let p: i64 = a * (HALF_TURN - a);
    let num: i64 = 16 * p * FRAC;
    let den: i64 = 5 * HALF_TURN * HALF_TURN - 4 * p;
    proof {
        assert(num <= den * 65536);
        lemma_multiply_divide_le(num as int, den as int, FRAC as int);
        lemma_div_pos_is_pos(num as int, den as int);
    }
    let q: u64 = (num as u64) / (den as u64);
    q as i64
}

fn sine_units(a: i64) -> (r: i64)
    requires
        0 <= a < TURN,
    ensures
        r == sine(a as int),
        -FRAC <= r <= FRAC,
{
    if a < HALF_TURN {
        half_sine_units(a)
    } else {
        let h: i64 = half_sine_units(a - HALF_TURN);
        -h
    }
}

/// Fixed-point sine of a Q16.16 radian value.
pub fn sin_fx(v: i64) -> (r: i64)
    requires
        SIN_ARG_MIN <= v <= SIN_ARG_MAX,
    ensures
        r == sin_fx_spec(v as int),
        -FRAC <= r <= FRAC,
{
    let t: i64 = v * RAD_TO_TURN + ANGLE_BIAS;
    proof {
        lemma_mod_division_less_than_divisor((t as int) / 65536, TURN as int);
    }
    let a: i64 = ((t as u64) / 65536 % 65536) as i64;
    proof {
        assert(a as int == angle(v as int));
    }
    sine_units(a)
}

} // verus!
