//! Linear parameter smoothing: a control value ramps from its current value
//! to a target over a fixed number of samples, never overshooting, and holds
//! the target once reached.

use vstd::prelude::*;
use vstd::arithmetic::div_mod::lemma_fundamental_div_mod;
use crate::clamp_i64;
use crate::clamp_spec;
use crate::div_trunc;
use crate::div_trunc_i64;
use crate::MAX_RAMP_STEPS;
use crate::MAX_SAMPLE_RATE;
use crate::MAX_SMOOTHING_MS;
use crate::PARAM_LIMIT;

verus! {

/// Length in samples of a smoothing ramp of `ms` milliseconds at `sr` Hz.
pub open spec fn ramp_steps(ms: int, sr: int) -> int {
    ms * sr / 1000
}

/// Mathematical state of a [`ParameterSmoother`].
pub ghost struct SmootherView {
    /// Lower bound of the parameter's declared range.
    pub min_value: int,
    /// Upper bound of the parameter's declared range.
    pub max_value: int,
    /// Configured ramp duration in milliseconds.
    pub smoothing_ms: int,
    /// Ramp length in samples at the configured sample rate.
    pub steps_total: int,
    /// Value the smoother reports right now.
    pub current: int,
    /// Value the smoother is ramping toward.
    pub target: int,
    /// Per-sample increment of the running ramp.
    pub step_size: int,
    /// Samples left before `current` reaches `target`.
    pub steps_left: int,
}

impl SmootherView {
    /// Well-formedness: values stay inside the declared range, a finished
    /// ramp sits exactly on the target, and a running ramp can never step
    /// past the target (no overshoot).
    pub open spec fn wf(self) -> bool {
        &&& -PARAM_LIMIT <= self.min_value <= self.max_value <= PARAM_LIMIT
        &&& self.min_value <= self.current <= self.max_value
        &&& self.min_value <= self.target <= self.max_value
        &&& 0 <= self.smoothing_ms <= MAX_SMOOTHING_MS
        &&& 0 <= self.steps_total <= MAX_RAMP_STEPS
        &&& 0 <= self.steps_left <= self.steps_total
        &&& self.steps_left == 0 ==> self.current == self.target
        &&& self.steps_left > 0 ==> {
            &&& (self.target - self.current >= 0 ==> 0 <= self.step_size * (self.steps_left - 1)
                <= self.target - self.current)
            &&& (self.target - self.current <= 0 ==> self.target - self.current <= self.step_size
                * (self.steps_left - 1) <= 0)
        }
    }
}

/// State after constructing a smoother resting on `default_value`.
pub open spec fn spec_new_smoother(
    min_value: int,
    max_value: int,
    default_value: int,
    smoothing_ms: int,
    sample_rate: int,
) -> SmootherView {
    SmootherView {
        min_value: min_value,
        max_value: max_value,
        smoothing_ms: smoothing_ms,
        steps_total: ramp_steps(smoothing_ms, sample_rate),
        current: default_value,
        target: default_value,
        step_size: 0,
        steps_left: 0,
    }
}

/// State after recording a new target: the value is clamped into the
/// declared range and a fresh ramp of `steps_total` samples is started,
/// unless the ramp is degenerate (no steps, or already on the target),
/// in which case the current value jumps straight to the target.
pub open spec fn spec_set_target(s: SmootherView, value: int) -> SmootherView {
    let t = clamp_spec(value, s.min_value, s.max_value);
    if s.steps_total == 0 || t == s.current {
        SmootherView { current: t, target: t, steps_left: 0, ..s }
    } else {
        SmootherView {
            current: s.current,
            target: t,
            step_size: div_trunc(t - s.current, s.steps_total),
            steps_left: s.steps_total,
            ..s
        }
    }
}

/// State after one smoothing step: the last step of a ramp lands exactly on
/// the target; earlier steps advance by `step_size`; a finished ramp holds.
pub open spec fn spec_next(s: SmootherView) -> SmootherView {
    if s.steps_left == 0 {
        s
    } else if s.steps_left == 1 {
        SmootherView { current: s.target, steps_left: 0, ..s }
    } else {
        SmootherView { current: s.current + s.step_size, steps_left: s.steps_left - 1, ..s }
    }
}

/// State after snapping the current value onto the target.
pub open spec fn spec_snap(s: SmootherView) -> SmootherView {
    SmootherView { current: s.target, steps_left: 0, ..s }
}

/// State after snapping both the current value and the target onto a value,
/// clamped into the declared range.
pub open spec fn spec_reset(s: SmootherView, value: int) -> SmootherView {
    let t = clamp_spec(value, s.min_value, s.max_value);
    SmootherView { current: t, target: t, steps_left: 0, ..s }
}

/// State after adopting a new sample rate: the ramp length is recomputed
/// and the current value snaps onto the target.
pub open spec fn spec_configure(s: SmootherView, sample_rate: int) -> SmootherView {
    SmootherView {
        steps_total: ramp_steps(s.smoothing_ms, sample_rate),
        current: s.target,
        steps_left: 0,
        ..s
    }
}

/// One smoothing step of a well-formed smoother leaves a well-formed
/// smoother.
pub proof fn lemma_spec_next_wf(s: SmootherView)
    requires
        s.wf(),
    ensures
        spec_next(s).wf(),
{
    if s.steps_left >= 2 {
        let e = s.step_size;
        let k = s.steps_left;
        assert(e * (k - 1) == e + e * (k - 2)) by (nonlinear_arith);
        if s.target - s.current >= 0 {
            assert(e >= 0) by (nonlinear_arith)
                requires
                    e * (k - 1) >= 0,
                    k >= 2,
            ;
            assert(0 <= e * (k - 2) <= e * (k - 1)) by (nonlinear_arith)
                requires
                    e >= 0,
                    k >= 2,
            ;
        } else {
            assert(e <= 0) by (nonlinear_arith)
                requires
                    e * (k - 1) <= 0,
                    k >= 2,
            ;
            assert(e * (k - 1) <= e * (k - 2) <= 0) by (nonlinear_arith)
                requires
                    e <= 0,
                    k >= 2,
            ;
        }
    }
}

/// State after `k` smoothing steps.
pub open spec fn spec_next_n(s: SmootherView, k: nat) -> SmootherView
    decreases k,
{
    if k == 0 {
        s
    } else {
        spec_next_n(spec_next(s), (k - 1) as nat)
    }
}

/// The smoother converges: after its remaining steps the current value sits
/// exactly on the target with no ramp left, so every later step returns the
/// target unchanged.
pub proof fn lemma_smoother_converges(s: SmootherView)
    requires
        s.wf(),
    ensures
        spec_next_n(s, s.steps_left as nat).current == s.target,
        spec_next_n(s, s.steps_left as nat).target == s.target,
        spec_next_n(s, s.steps_left as nat).steps_left == 0,
    decreases s.steps_left,
{
    if s.steps_left > 0 {
        lemma_spec_next_wf(s);
        lemma_smoother_converges(spec_next(s));
    }
}

/// Converts discrete control changes into per-sample linear ramps, keeping
/// the audio path free of discontinuities.
pub struct ParameterSmoother {
    min_value: i64,
    max_value: i64,
    smoothing_ms: u32,
    steps_total: u32,
    current: i64,
    target: i64,
    step_size: i64,
    steps_left: u32,
}

impl View for ParameterSmoother {
    type V = SmootherView;

    closed spec fn view(&self) -> SmootherView {
        SmootherView {
            min_value: self.min_value as int,
            max_value: self.max_value as int,
            smoothing_ms: self.smoothing_ms as int,
            steps_total: self.steps_total as int,
            current: self.current as int,
            target: self.target as int,
            step_size: self.step_size as int,
            steps_left: self.steps_left as int,
        }
    }
}

/// The ramp length fits in the machine word for every admissible
/// configuration.
proof fn lemma_ramp_steps_bounded(ms: int, sr: int)
    requires
        0 <= ms <= MAX_SMOOTHING_MS,
        1 <= sr <= MAX_SAMPLE_RATE,
    ensures
        0 <= ramp_steps(ms, sr) <= MAX_RAMP_STEPS,
{
    assert(0 <= ms * sr <= MAX_SMOOTHING_MS * MAX_SAMPLE_RATE as int) by (nonlinear_arith)
        requires
            0 <= ms <= MAX_SMOOTHING_MS,
            1 <= sr <= MAX_SAMPLE_RATE,
    ;
    vstd::arithmetic::div_mod::lemma_div_is_ordered(
        ms * sr,
        MAX_SMOOTHING_MS * MAX_SAMPLE_RATE as int,
        1000,
    );
    vstd::arithmetic::div_mod::lemma_div_pos_is_pos(ms * sr, 1000);
}

impl ParameterSmoother {
    /// Builds a smoother resting on `default_value`, with the ramp length
    /// derived from the smoothing duration and the sample rate.
    pub fn new(
        min_value: i64,
        max_value: i64,
        default_value: i64,
        smoothing_ms: u32,
        sample_rate: u32,
    ) -> (r: Self)
        requires
            -PARAM_LIMIT <= min_value <= default_value <= max_value <= PARAM_LIMIT,
            smoothing_ms <= MAX_SMOOTHING_MS,
            1 <= sample_rate <= MAX_SAMPLE_RATE,
        ensures
            r@ == spec_new_smoother(
                min_value as int,
                max_value as int,
                default_value as int,
                smoothing_ms as int,
                sample_rate as int,
            ),
            r@.wf(),
    {
        proof {
            lemma_ramp_steps_bounded(smoothing_ms as int, sample_rate as int);
        }
        let steps_total: u32 = ((smoothing_ms as u64) * (sample_rate as u64) / 1000) as u32;
        ParameterSmoother {
            min_value,
            max_value,
            smoothing_ms,
            steps_total,
            current: default_value,
            target: default_value,
            step_size: 0,
            steps_left: 0,
        }
    }

    /// The value the smoother reports right now.
    pub fn value(&self) -> (r: i64)
        ensures
            r == self@.current,
    {
        self.current
    }

    /// The value the smoother is ramping toward.
    pub fn target_value(&self) -> (r: i64)
        ensures
            r == self@.target,
    {
        self.target
    }

    /// Records a new target without jumping the current value: the value is
    /// clamped into the declared range and a fresh linear ramp starts.
    pub fn set_target(&mut self, value: i64)
        requires
            old(self)@.wf(),
        ensures
            final(self)@ == spec_set_target(old(self)@, value as int),
            final(self)@.wf(),
    {
        let t = clamp_i64(value, self.min_value, self.max_value);
        if self.steps_total == 0 || t == self.current {
            self.current = t;
            self.target = t;
            self.steps_left = 0;
        } else {
            let d: i64 = t - self.current;
            let n: i64 = self.steps_total as i64;
            let step = div_trunc_i64(d, n);
            proof {
                let di = d as int;
                let ni = n as int;
                let st = step as int;
                if d > 0 {
                    lemma_fundamental_div_mod(di, ni);
                    vstd::arithmetic::div_mod::lemma_mod_division_less_than_divisor(di, ni);
                    vstd::arithmetic::div_mod::lemma_div_pos_is_pos(di, ni);
                    assert(st == di / ni);
                    assert(0 <= st * (ni - 1) <= di) by (nonlinear_arith)
                        requires
                            st >= 0,
                            ni >= 1,
                            di == ni * st + di % ni,
                            di % ni >= 0,
                    ;
                } else {
                    lemma_fundamental_div_mod(-di, ni);
                    vstd::arithmetic::div_mod::lemma_mod_division_less_than_divisor(-di, ni);
                    vstd::arithmetic::div_mod::lemma_div_pos_is_pos(-di, ni);
                    assert(st == -((-di) / ni));
                    assert(di <= st * (ni - 1) <= 0) by (nonlinear_arith)
                        requires
                            st <= 0,
                            ni >= 1,
                            -di == ni * (-st) + (-di) % ni,
                            (-di) % ni >= 0,
                    ;
                }
            }
            self.target = t;
            self.step_size = step;
            self.steps_left = self.steps_total;
        }
    }

    /// Advances the ramp one sample and returns the new current value; once
    /// the target is reached, further calls return the target unchanged.
    pub fn next(&mut self) -> (r: i64)
        requires
            old(self)@.wf(),
        ensures
            final(self)@ == spec_next(old(self)@),
            final(self)@.wf(),
            r == final(self)@.current,
    {
        if self.steps_left == 0 {
            self.current
        } else if self.steps_left == 1 {
            self.steps_left = 0;
            self.current = self.target;
            self.current
        } else {
            proof {
                lemma_spec_next_wf(self@);
            }
            self.steps_left = self.steps_left - 1;
            self.current = self.current + self.step_size;
            self.current
        }
    }

    /// Snaps both the current value and the target onto `value` instantly,
    /// clamped into the declared range. For a hard reset or initialization,
    /// not for steady playback: it avoids an artificial ramp-in afterwards.
    pub fn reset(&mut self, value: i64)
        requires
            old(self)@.wf(),
        ensures
            final(self)@ == spec_reset(old(self)@, value as int),
            final(self)@.wf(),
    {
        let t = clamp_i64(value, self.min_value, self.max_value);
        self.current = t;
        self.target = t;
        self.steps_left = 0;
    }

    /// Snaps the current value onto the target, ending any running ramp.
    /// Used at reset, so that playback does not resume with a stale ramp.
    pub fn snap(&mut self)
        requires
            old(self)@.wf(),
        ensures
            final(self)@ == spec_snap(old(self)@),
            final(self)@.wf(),
    {
        self.current = self.target;
        self.steps_left = 0;
    }

    /// Adopts a new sample rate: recomputes the ramp length and snaps the
    /// current value onto the target.
    pub fn configure(&mut self, sample_rate: u32)
        requires
            old(self)@.wf(),
            1 <= sample_rate <= MAX_SAMPLE_RATE,
        ensures
            final(self)@ == spec_configure(old(self)@, sample_rate as int),
            final(self)@.wf(),
    {
        proof {
            lemma_ramp_steps_bounded(self@.smoothing_ms, sample_rate as int);
        }
        self.steps_total = ((self.smoothing_ms as u64) * (sample_rate as u64) / 1000) as u32;
        self.current = self.target;
        self.steps_left = 0;
    }
}

} // verus!
