//! A phase-accumulating low-frequency oscillator. The phase lives in
//! `[0, TAU_FP)` and advances by `rate * TAU_FP / sample_rate` fixed-point
//! units each sample. Its output approximates the sine of the phase with a
//! fixed-point parabola per half cycle, which is exactly zero at phase zero
//! and stays within one full-scale unit.

use vstd::prelude::*;
use vstd::arithmetic::div_mod::lemma_mod_division_less_than_divisor;
use vstd::arithmetic::div_mod::lemma_multiply_divide_le;
use vstd::arithmetic::div_mod::lemma_div_pos_is_pos;
use crate::MAX_SAMPLE_RATE;
use crate::PI_FP;
use crate::RATE_LIMIT;
use crate::SCALE;
use crate::TAU_FP;

verus! {

/// A half-cycle parabolic arch in fixed point: `4 x (PI_FP - x) / PI_FP^2`,
/// scaled to peak near one full-scale unit. Zero at both ends of the arch.
pub open spec fn parab(x: int) -> int {
    (4 * x * (PI_FP - x)) / (PI_FP as int) * (SCALE as int) / (PI_FP as int)
}

/// Fixed-point oscillator value at `phase`: a positive arch over the first
/// half cycle and its negation over the second.
pub open spec fn sine_fp(phase: int) -> int {
    if phase <= PI_FP {
        parab(phase)
    } else {
        -parab(phase - PI_FP)
    }
}

/// Per-sample phase increment for `rate` fixed-point Hz at `sr` Hz.
pub open spec fn lfo_increment(rate: int, sr: int) -> int {
    rate * TAU_FP / (SCALE * sr)
}

/// Phase after one sample: the increment is added and the sum wraps into
/// `[0, TAU_FP)`.
pub open spec fn lfo_advance(phase: int, rate: int, sr: int) -> int {
    (phase + lfo_increment(rate, sr)) % (TAU_FP as int)
}

/// The arch stays within `[0, SCALE]` over its half cycle.
pub proof fn lemma_parab_bounds(x: int)
    requires
        0 <= x <= PI_FP,
    ensures
        0 <= parab(x) <= SCALE,
{
    let t1 = 4 * x * (PI_FP - x);
    assert((2 * x - PI_FP) * (2 * x - PI_FP) >= 0) by (nonlinear_arith);
    assert(4 * x * (PI_FP - x) == PI_FP * PI_FP - (2 * x - PI_FP) * (2 * x - PI_FP))
        by (nonlinear_arith);
    assert(4 * x * (PI_FP - x) >= 0) by (nonlinear_arith)
        requires
            0 <= x <= PI_FP,
    ;
    let q1 = t1 / (PI_FP as int);
    lemma_div_pos_is_pos(t1, PI_FP as int);
    lemma_multiply_divide_le(t1, PI_FP as int, PI_FP as int);
    assert(q1 * SCALE <= PI_FP * SCALE) by (nonlinear_arith)
        requires
            0 <= q1 <= PI_FP,
    ;
    lemma_div_pos_is_pos(q1 * SCALE, PI_FP as int);
    lemma_multiply_divide_le(q1 * SCALE, PI_FP as int, SCALE as int);
}

/// The oscillator value stays within one full-scale unit for any phase in
/// the cycle, and is exactly zero at phase zero.
pub proof fn lemma_sine_bounds(phase: int)
    requires
        0 <= phase < TAU_FP,
    ensures
        -SCALE <= sine_fp(phase) <= SCALE,
        phase == 0 ==> sine_fp(phase) == 0,
{
    if phase <= PI_FP {
        lemma_parab_bounds(phase);
    } else {
        lemma_parab_bounds(phase - PI_FP);
    }
    if phase == 0 {
        assert(4 * 0 * (PI_FP - 0) == 0);
        vstd::arithmetic::div_mod::lemma_div_of0(PI_FP as int);
        assert(parab(0) == 0);
    }
}

/// A low-frequency oscillator: pure function of its accumulated phase.
pub struct Lfo {
    phase: i64,
}

impl View for Lfo {
    type V = int;

    closed spec fn view(&self) -> int {
        self.phase as int
    }
}

impl Lfo {
    /// Whether the phase lies inside the cycle.
    pub open spec fn wf(&self) -> bool {
        0 <= self@ < TAU_FP
    }

    /// Builds an oscillator at phase zero.
    pub fn new() -> (r: Self)
        ensures
            r@ == 0,
            r.wf(),
    {
        Lfo { phase: 0 }
    }

    /// Puts the phase back to zero.
    pub fn reset(&mut self)
        ensures
            final(self)@ == 0,
            final(self).wf(),
    {
        self.phase = 0;
    }

    /// Advances the phase by one sample's increment for the given rate,
    /// wrapping into `[0, TAU_FP)`.
    pub fn advance(&mut self, rate: i64, sample_rate: u32)
        requires
            old(self).wf(),
            0 <= rate <= RATE_LIMIT,
            1 <= sample_rate <= MAX_SAMPLE_RATE,
        ensures
            final(self)@ == lfo_advance(old(self)@, rate as int, sample_rate as int),
            final(self).wf(),
    {
        proof {
            assert(0 <= rate * TAU_FP <= RATE_LIMIT * TAU_FP) by (nonlinear_arith)
                requires
                    0 <= rate <= RATE_LIMIT,
            ;
            assert(SCALE <= SCALE * (sample_rate as int) <= SCALE * (MAX_SAMPLE_RATE as int))
                by (nonlinear_arith)
                requires
                    1 <= sample_rate <= MAX_SAMPLE_RATE,
            ;
        }
        let denom: i64 = SCALE * (sample_rate as i64);
        proof {
            lemma_div_pos_is_pos(rate * TAU_FP, denom as int);
            vstd::arithmetic::div_mod::lemma_div_is_ordered(
                rate * TAU_FP,
                RATE_LIMIT * TAU_FP,
                denom as int,
            );
            vstd::arithmetic::div_mod::lemma_div_is_ordered_by_denominator(
                RATE_LIMIT * TAU_FP,
                SCALE as int,
                denom as int,
            );
        }
        let inc: i64 = (rate * TAU_FP) / denom;
        proof {
            lemma_mod_division_less_than_divisor(old(self)@ + inc, TAU_FP as int);
        }
        self.phase = (self.phase + inc) % TAU_FP;
    }

    /// The oscillator value at the current phase.
    pub fn value(&self) -> (r: i64)
        requires
            self.wf(),
        ensures
            r == sine_fp(self@),
            -SCALE <= r <= SCALE,
            self@ == 0 ==> r == 0,
    {
        proof {
            lemma_sine_bounds(self@);
        }
        if self.phase <= PI_FP {
            arch_value(self.phase)
        } else {
            -arch_value(self.phase - PI_FP)
        }
    }
}

/// Evaluates the parabolic arch at `x` within the half cycle.
fn arch_value(x: i64) -> (r: i64)
    requires
        0 <= x <= PI_FP,
    ensures
        r == parab(x as int),
        0 <= r <= SCALE,
{
    proof {
        lemma_parab_bounds(x as int);
        assert(0 <= 4 * x * (PI_FP - x) <= PI_FP * PI_FP) by (nonlinear_arith)
            requires
                0 <= x <= PI_FP,
        ;
        lemma_div_pos_is_pos(4 * x * (PI_FP - x), PI_FP as int);
        lemma_multiply_divide_le(4 * x * (PI_FP - x), PI_FP as int, PI_FP as int);
        let q1 = (4 * x * (PI_FP - x)) / (PI_FP as int);
        assert(q1 * SCALE <= PI_FP * SCALE) by (nonlinear_arith)
            requires
                0 <= q1 <= PI_FP,
        ;
    }
    let t1: i64 = 4 * x * (PI_FP - x);
    let q1: i64 = t1 / PI_FP;
    q1 * SCALE / PI_FP
}

} // verus!
