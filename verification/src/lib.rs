//! Signal-processing core of a real-time chorus audio effect.
//!
//! All audio samples and control parameters are carried as fixed-point
//! values: an `i64` holding the real quantity scaled by [`SCALE`].

use vstd::prelude::*;

pub mod delay;
pub mod engine;
pub mod laws;
pub mod lfo;
pub mod params;
pub mod smoother;

verus! {

/// Fixed-point scale: one unit of the real quantity.
pub const SCALE: i64 = 1_000_000;

/// Largest magnitude a smoothed parameter value may have, in fixed point.
pub const PARAM_LIMIT: i64 = 1_000_000_000;

/// Largest magnitude an audio sample handed to the engine may have, in
/// fixed point (one thousand full-scale units).
pub const SAMPLE_LIMIT: i64 = 1_000_000_000;

/// Largest sample rate, in Hz, that the engine accepts.
pub const MAX_SAMPLE_RATE: u32 = 1_000_000;

/// Longest smoothing ramp duration, in milliseconds.
pub const MAX_SMOOTHING_MS: u32 = 60_000;

/// Longest smoothing ramp, in samples: `MAX_SMOOTHING_MS / 1000 * MAX_SAMPLE_RATE`.
pub const MAX_RAMP_STEPS: u32 = 60_000_000;

/// Largest delay-line capacity, in samples: one second at the largest
/// sample rate.
pub const MAX_CAPACITY: usize = 1_000_000;

/// Largest declared maximum of the depth parameter, in fixed-point seconds
/// (one second).
pub const DEPTH_LIMIT: i64 = 1_000_000;

/// Largest declared maximum of the rate parameter, in fixed-point Hz.
pub const RATE_LIMIT: i64 = 1_000_000_000;

/// Sample rate assumed until the host reports one.
pub const DEFAULT_SAMPLE_RATE: u32 = 48_000;

/// Fixed-point value of the half circle constant.
pub const PI_FP: i64 = 3_141_593;

/// Fixed-point value of the full circle constant (two half circles).
pub const TAU_FP: i64 = 2 * PI_FP;

/// Truncating division (rounds toward zero), as the hardware divider does.
pub open spec fn div_trunc(a: int, b: int) -> int {
    if a >= 0 {
        a / b
    } else {
        -((-a) / b)
    }
}

/// Clamp `x` into `[lo, hi]`.
pub open spec fn clamp_spec(x: int, lo: int, hi: int) -> int {
    if x < lo {
        lo
    } else if x > hi {
        hi
    } else {
        x
    }
}

/// Truncating division of a fixed-point value by a positive divisor.
pub fn div_trunc_i64(a: i64, b: i64) -> (r: i64)
    requires
        b > 0,
        a > i64::MIN,
    ensures
        r == div_trunc(a as int, b as int),
{
    if a >= 0 {
        a / b
    } else {
        -((-a) / b)
    }
}

/// A truncating division stays within a symmetric bound of the dividend.
pub proof fn lemma_div_trunc_bound(x: int, s: int, bound: int)
    requires
        s >= 1,
        bound >= 0,
        -(bound * s) <= x <= bound * s,
    ensures
        -bound <= div_trunc(x, s) <= bound,
{
    if x >= 0 {
        vstd::arithmetic::div_mod::lemma_multiply_divide_le(x, s, bound);
        vstd::arithmetic::div_mod::lemma_div_pos_is_pos(x, s);
    } else {
        vstd::arithmetic::div_mod::lemma_multiply_divide_le(-x, s, bound);
        vstd::arithmetic::div_mod::lemma_div_pos_is_pos(-x, s);
    }
}

/// Scaling by `s` and then dividing by `s` with truncation gives the
/// original value back.
pub proof fn lemma_div_trunc_mul_cancel(a: int, s: int)
    requires
        s >= 1,
    ensures
        div_trunc(s * a, s) == a,
{
    if s * a >= 0 {
        vstd::arithmetic::div_mod::lemma_div_multiples_vanish(a, s);
    } else {
        assert(-(s * a) == s * (-a)) by (nonlinear_arith);
        vstd::arithmetic::div_mod::lemma_div_multiples_vanish(-a, s);
    }
}

/// Clamp `x` into `[lo, hi]`.
pub fn clamp_i64(x: i64, lo: i64, hi: i64) -> (r: i64)
    requires
        lo <= hi,
    ensures
        r == clamp_spec(x as int, lo as int, hi as int),
{
    if x < lo {
        lo
    } else if x > hi {
        hi
    } else {
        x
    }
}

} // verus!
