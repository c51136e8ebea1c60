//! The chorus engine: composes the delay line, the oscillator and the three
//! parameter smoothers into the per-sample pipeline. Each sample it pulls
//! smoothed parameters, advances the oscillator, reads an interpolated
//! delayed sample, writes the new dry sample, blends wet and dry, clamps,
//! and advances the cursor.

use vstd::prelude::*;
use vstd::arithmetic::div_mod::lemma_fundamental_div_mod;
use vstd::arithmetic::div_mod::lemma_mod_division_less_than_divisor;
use vstd::arithmetic::div_mod::lemma_multiply_divide_lt;
use vstd::arithmetic::div_mod::lemma_div_pos_is_pos;
use vstd::arithmetic::div_mod::lemma_div_is_ordered;
use crate::clamp_i64;
use crate::clamp_spec;
use crate::delay::DelayLine;
use crate::delay::DelayLineView;
use crate::delay::interp_spec;
use crate::div_trunc;
use crate::div_trunc_i64;
use crate::lfo::Lfo;
use crate::lfo::lfo_advance;
use crate::lfo::sine_fp;
use crate::params::ChorusParameters;
use crate::params::standard_parameters;
use crate::smoother::ParameterSmoother;
use crate::smoother::SmootherView;
use crate::smoother::ramp_steps;
use crate::smoother::spec_configure;
use crate::smoother::spec_new_smoother;
use crate::smoother::spec_next;
use crate::smoother::spec_set_target;
use crate::smoother::spec_snap;
use crate::DEFAULT_SAMPLE_RATE;
use crate::DEPTH_LIMIT;
use crate::MAX_CAPACITY;
use crate::MAX_SAMPLE_RATE;
use crate::SAMPLE_LIMIT;
use crate::SCALE;
use crate::TAU_FP;

verus! {

/// Completion status of a processed block. Every block completes normally;
/// there is no yielding and no recoverable mid-block failure.
#[derive(Clone, Copy, PartialEq, Eq, Structural, Debug)]
pub enum ProcessStatus {
    Normal,
}

/// Delay-line capacity for a declared maximum depth at a sample rate:
/// `max_depth * sample_rate` seconds-times-Hz samples, rounded up.
pub open spec fn capacity_spec(max_depth: int, sample_rate: int) -> int {
    (max_depth * sample_rate + SCALE - 1) / (SCALE as int)
}

/// Mathematical state of a [`ChorusEngine`].
pub ghost struct EngineView {
    /// The configuration record the engine was built with.
    pub params: ChorusParameters,
    /// Sample rate in Hz.
    pub sample_rate: int,
    /// The circular delay buffer.
    pub delay: DelayLineView,
    /// Oscillator phase.
    pub phase: int,
    /// Smoother of the rate parameter.
    pub rate: SmootherView,
    /// Smoother of the depth parameter.
    pub depth: SmootherView,
    /// Smoother of the mix parameter.
    pub mix: SmootherView,
}

impl EngineView {
    /// Well-formedness: components are well-formed, each smoother carries
    /// its parameter's declared range and the ramp length for the current
    /// sample rate, and the buffer capacity is sized from the declared
    /// maximum depth at the current sample rate.
    pub open spec fn wf(self) -> bool {
        &&& self.params.wf()
        &&& 1 <= self.sample_rate <= MAX_SAMPLE_RATE
        &&& self.delay.wf()
        &&& self.delay.samples.len() == capacity_spec(
            self.params.depth.max_value as int,
            self.sample_rate,
        )
        &&& 0 <= self.phase < TAU_FP
        &&& self.rate.wf()
        &&& self.rate.min_value == self.params.rate.min_value
        &&& self.rate.max_value == self.params.rate.max_value
        &&& self.rate.smoothing_ms == self.params.rate.smoothing_ms
        &&& self.rate.steps_total == ramp_steps(
            self.params.rate.smoothing_ms as int,
            self.sample_rate,
        )
        &&& self.depth.wf()
        &&& self.depth.min_value == self.params.depth.min_value
        &&& self.depth.max_value == self.params.depth.max_value
        &&& self.depth.smoothing_ms == self.params.depth.smoothing_ms
        &&& self.depth.steps_total == ramp_steps(
            self.params.depth.smoothing_ms as int,
            self.sample_rate,
        )
        &&& self.mix.wf()
        &&& self.mix.min_value == self.params.mix.min_value
        &&& self.mix.max_value == self.params.mix.max_value
        &&& self.mix.smoothing_ms == self.params.mix.smoothing_ms
        &&& self.mix.steps_total == ramp_steps(
            self.params.mix.smoothing_ms as int,
            self.sample_rate,
        )
    }
}

/// Smoothed rate pulled in one step.
pub open spec fn step_rate(s: EngineView) -> int {
    spec_next(s.rate).current
}

/// Smoothed depth pulled in one step.
pub open spec fn step_depth(s: EngineView) -> int {
    spec_next(s.depth).current
}

/// Smoothed mix pulled in one step.
pub open spec fn step_mix(s: EngineView) -> int {
    spec_next(s.mix).current
}

/// Oscillator phase after one step: advanced by the smoothed rate.
pub open spec fn step_phase(s: EngineView) -> int {
    lfo_advance(s.phase, step_rate(s), s.sample_rate)
}

/// Oscillator value used in one step.
pub open spec fn step_lfo(s: EngineView) -> int {
    sine_fp(step_phase(s))
}

/// Unipolar modulation offset of one step, in fixed-point samples:
/// `depth * sample_rate * (lfo + 1) / 2`, ranging over
/// `[0, depth * sample_rate]`.
pub open spec fn step_mod_delay(s: EngineView) -> int {
    step_depth(s) * s.sample_rate * (step_lfo(s) + SCALE) / (2 * SCALE as int)
}

/// The wet sample of one step: the interpolated read at the modulation
/// offset, taken before the dry sample is written.
pub open spec fn step_wet(s: EngineView) -> int {
    interp_spec(s.delay, step_mod_delay(s))
}

/// Output of one step: `clamp(mix * wet + (1 - mix) * dry, -1, 1)` in fixed
/// point. A zero-capacity buffer degenerates to dry passthrough.
pub open spec fn step_output(s: EngineView, dry: i64) -> int {
    if s.delay.samples.len() == 0 {
        dry as int
    } else {
        clamp_spec(
            div_trunc(step_mix(s) * step_wet(s) + (SCALE - step_mix(s)) * dry, SCALE as int),
            -SCALE as int,
            SCALE as int,
        )
    }
}

/// Engine state after one step: smoothers pulled, oscillator advanced, the
/// dry sample written at the cursor and the cursor advanced. A
/// zero-capacity buffer is left untouched.
pub open spec fn step_view(s: EngineView, dry: i64) -> EngineView {
    EngineView {
        delay: if s.delay.samples.len() == 0 {
            s.delay
        } else {
            DelayLineView {
                samples: s.delay.samples.update(s.delay.write_pos, dry),
                write_pos: (s.delay.write_pos + 1) % (s.delay.samples.len() as int),
            }
        },
        phase: step_phase(s),
        rate: spec_next(s.rate),
        depth: spec_next(s.depth),
        mix: spec_next(s.mix),
        ..s
    }
}

/// Engine state as built: an all-zero buffer sized for the declared maximum
/// depth, phase zero, and every smoother resting on its default.
pub open spec fn fresh_view(params: ChorusParameters, sample_rate: int) -> EngineView {
    EngineView {
        params: params,
        sample_rate: sample_rate,
        delay: DelayLineView {
            samples: Seq::new(
                capacity_spec(params.depth.max_value as int, sample_rate) as nat,
                |i: int| 0i64,
            ),
            write_pos: 0,
        },
        phase: 0,
        rate: spec_new_smoother(
            params.rate.min_value as int,
            params.rate.max_value as int,
            params.rate.default_value as int,
            params.rate.smoothing_ms as int,
            sample_rate,
        ),
        depth: spec_new_smoother(
            params.depth.min_value as int,
            params.depth.max_value as int,
            params.depth.default_value as int,
            params.depth.smoothing_ms as int,
            sample_rate,
        ),
        mix: spec_new_smoother(
            params.mix.min_value as int,
            params.mix.max_value as int,
            params.mix.default_value as int,
            params.mix.smoothing_ms as int,
            sample_rate,
        ),
    }
}

/// Engine state after adopting a new sample rate: a fresh zeroed buffer
/// sized for the new rate, phase zero, and smoothers snapped onto their
/// kept targets with recomputed ramp lengths.
pub open spec fn init_view(s: EngineView, sample_rate: int) -> EngineView {
    EngineView {
        sample_rate: sample_rate,
        delay: DelayLineView {
            samples: Seq::new(
                capacity_spec(s.params.depth.max_value as int, sample_rate) as nat,
                |i: int| 0i64,
            ),
            write_pos: 0,
        },
        phase: 0,
        rate: spec_configure(s.rate, sample_rate),
        depth: spec_configure(s.depth, sample_rate),
        mix: spec_configure(s.mix, sample_rate),
        ..s
    }
}

/// Engine state after a reset: the buffer zeroed in place, cursor and phase
/// zero, and smoothers snapped onto their untouched targets.
pub open spec fn reset_view(s: EngineView) -> EngineView {
    EngineView {
        delay: DelayLineView {
            samples: Seq::new(s.delay.samples.len(), |i: int| 0i64),
            write_pos: 0,
        },
        phase: 0,
        rate: spec_snap(s.rate),
        depth: spec_snap(s.depth),
        mix: spec_snap(s.mix),
        ..s
    }
}

/// Engine state after a whole block: each input sample stepped in arrival
/// order.
pub open spec fn process_state(s: EngineView, input: Seq<i64>) -> EngineView
    decreases input.len(),
{
    if input.len() == 0 {
        s
    } else {
        process_state(step_view(s, input[0]), input.subrange(1, input.len() as int))
    }
}

/// Outputs of a whole block: one stepped output per input sample, in
/// arrival order.
pub open spec fn process_output(s: EngineView, input: Seq<i64>) -> Seq<i64>
    decreases input.len(),
{
    if input.len() == 0 {
        Seq::empty()
    } else {
        seq![step_output(s, input[0]) as i64].add(
            process_output(step_view(s, input[0]), input.subrange(1, input.len() as int)),
        )
    }
}

/// Stepping a block and then one more sample is stepping the extended
/// block.
pub proof fn lemma_process_state_snoc(s: EngineView, input: Seq<i64>, x: i64)
    ensures
        process_state(s, input.push(x)) == step_view(process_state(s, input), x),
    decreases input.len(),
{
    let q = input.push(x);
    if input.len() == 0 {
        assert(q[0] == x);
        assert(q.subrange(1, 1) =~= Seq::<i64>::empty());
        assert(process_state(s, q) == process_state(step_view(s, x), q.subrange(1, 1)));
        assert(process_state(step_view(s, x), Seq::<i64>::empty()) == step_view(s, x));
        assert(process_state(s, input) == s);
    } else {
        let rest = input.subrange(1, input.len() as int);
        assert(q[0] == input[0]);
        assert(q.subrange(1, input.len() as int + 1) =~= rest.push(x));
        assert(process_state(s, q) == process_state(step_view(s, input[0]), rest.push(x)));
        lemma_process_state_snoc(step_view(s, input[0]), rest, x);
        assert(process_state(s, input) == process_state(step_view(s, input[0]), rest));
    }
}

/// The outputs of an extended block are the outputs of the block followed
/// by the one stepped output.
pub proof fn lemma_process_output_snoc(s: EngineView, input: Seq<i64>, x: i64)
    ensures
        process_output(s, input.push(x)) == process_output(s, input).push(
            step_output(process_state(s, input), x) as i64,
        ),
    decreases input.len(),
{
    let q = input.push(x);
    if input.len() == 0 {
        assert(q[0] == x);
        assert(q.subrange(1, 1) =~= Seq::<i64>::empty());
        assert(process_output(s, q) == seq![step_output(s, x) as i64].add(
            process_output(step_view(s, x), q.subrange(1, 1)),
        ));
        assert(process_output(step_view(s, x), Seq::<i64>::empty()) == Seq::<i64>::empty());
        assert(process_output(s, input) == Seq::<i64>::empty());
        assert(process_state(s, input) == s);
        assert(process_output(s, q) =~= process_output(s, input).push(
            step_output(process_state(s, input), x) as i64,
        ));
    } else {
        let rest = input.subrange(1, input.len() as int);
        assert(q[0] == input[0]);
        assert(q.subrange(1, input.len() as int + 1) =~= rest.push(x));
        assert(process_output(s, q) == seq![step_output(s, input[0]) as i64].add(
            process_output(step_view(s, input[0]), rest.push(x)),
        ));
        lemma_process_output_snoc(step_view(s, input[0]), rest, x);
        lemma_process_state_snoc(s, input, x);
        assert(process_output(s, input) == seq![step_output(s, input[0]) as i64].add(
            process_output(step_view(s, input[0]), rest),
        ));
        assert(process_state(s, input) == process_state(step_view(s, input[0]), rest));
        assert(process_output(s, q) =~= process_output(s, input).push(
            step_output(process_state(s, input), x) as i64,
        ));
    }
}

/// The signal-processing core of the chorus effect: one delay line, one
/// oscillator phase, the current sample rate, and one smoother per control.
pub struct ChorusEngine {
    params: ChorusParameters,
    sample_rate: u32,
    delay: DelayLine,
    lfo: Lfo,
    rate_smoother: ParameterSmoother,
    depth_smoother: ParameterSmoother,
    mix_smoother: ParameterSmoother,
}

impl View for ChorusEngine {
    type V = EngineView;

    closed spec fn view(&self) -> EngineView {
        EngineView {
            params: self.params,
            sample_rate: self.sample_rate as int,
            delay: self.delay@,
            phase: self.lfo@,
            rate: self.rate_smoother@,
            depth: self.depth_smoother@,
            mix: self.mix_smoother@,
        }
    }
}

/// Computes the buffer capacity for a declared maximum depth at a sample
/// rate, rounding up to whole samples.
fn capacity_for(max_depth: i64, sample_rate: u32) -> (r: usize)
    requires
        0 <= max_depth <= DEPTH_LIMIT,
        1 <= sample_rate <= MAX_SAMPLE_RATE,
    ensures
        r == capacity_spec(max_depth as int, sample_rate as int),
        r <= MAX_CAPACITY,
{
    proof {
        assert(0 <= max_depth * sample_rate <= DEPTH_LIMIT * MAX_SAMPLE_RATE as int)
            by (nonlinear_arith)
            requires
                0 <= max_depth <= DEPTH_LIMIT,
                1 <= sample_rate <= MAX_SAMPLE_RATE,
        ;
    }
    let num: i64 = max_depth * (sample_rate as i64) + (SCALE - 1);
    proof {
        lemma_div_pos_is_pos(num as int, SCALE as int);
        lemma_multiply_divide_lt(num as int, SCALE as int, MAX_CAPACITY + 1);
    }
    (num / SCALE) as usize
}

impl ChorusEngine {
    /// Builds an engine from a parameter record, assuming the default
    /// sample rate until the host reports one: a zeroed buffer sized from
    /// the declared maximum depth, phase zero, smoothers on their defaults.
    pub fn new(params: ChorusParameters) -> (r: Self)
        requires
            params.wf(),
        ensures
            r@ == fresh_view(params, DEFAULT_SAMPLE_RATE as int),
            r@.wf(),
    {
        let capacity = capacity_for(params.depth.max_value, DEFAULT_SAMPLE_RATE);
        let r = ChorusEngine {
            params,
            sample_rate: DEFAULT_SAMPLE_RATE,
            delay: DelayLine::new(capacity),
            lfo: Lfo::new(),
            rate_smoother: ParameterSmoother::new(
                params.rate.min_value,
                params.rate.max_value,
                params.rate.default_value,
                params.rate.smoothing_ms,
                DEFAULT_SAMPLE_RATE,
            ),
            depth_smoother: ParameterSmoother::new(
                params.depth.min_value,
                params.depth.max_value,
                params.depth.default_value,
                params.depth.smoothing_ms,
                DEFAULT_SAMPLE_RATE,
            ),
            mix_smoother: ParameterSmoother::new(
                params.mix.min_value,
                params.mix.max_value,
                params.mix.default_value,
                params.mix.smoothing_ms,
                DEFAULT_SAMPLE_RATE,
            ),
        };
        r
    }

    /// The configuration record the engine was built with.
    pub fn params(&self) -> (r: ChorusParameters)
        ensures
            r == self@.params,
    {
        self.params
    }

    /// The current sample rate in Hz.
    pub fn sample_rate(&self) -> (r: u32)
        ensures
            r == self@.sample_rate,
    {
        self.sample_rate
    }

    /// The delay-line capacity in samples.
    pub fn capacity(&self) -> (r: usize)
        ensures
            r == self@.delay.samples.len(),
    {
        self.delay.capacity()
    }

    /// Adopts a reported sample rate: reallocates the buffer to the
    /// capacity the declared maximum depth needs at that rate, clears it,
    /// zeroes cursor and phase, and snaps the smoothers onto their kept
    /// targets. Fails, leaving the prior state untouched, on a zero sample
    /// rate or one past the machine limit.
    pub fn initialize(&mut self, sample_rate: u32) -> (r: bool)
        requires
            old(self)@.wf(),
        ensures
            r == (1 <= sample_rate <= MAX_SAMPLE_RATE),
            r ==> final(self)@ == init_view(old(self)@, sample_rate as int),
            !r ==> final(self)@ == old(self)@,
            final(self)@.wf(),
    {
        if sample_rate == 0 || sample_rate > MAX_SAMPLE_RATE {
            return false;
        }
        let capacity = capacity_for(self.params.depth.max_value, sample_rate);
        self.sample_rate = sample_rate;
        self.delay = DelayLine::new(capacity);
        self.lfo.reset();
        self.rate_smoother.configure(sample_rate);
        self.depth_smoother.configure(sample_rate);
        self.mix_smoother.configure(sample_rate);
        true
    }

    /// Zeroes the buffer content, cursor and phase in place, without
    /// reallocating and without touching the parameter targets; snaps the
    /// smoothers so playback does not resume with a stale ramp.
    pub fn reset(&mut self)
        requires
            old(self)@.wf(),
        ensures
            final(self)@ == reset_view(old(self)@),
            final(self)@.wf(),
    {
        self.delay.reset();
        self.lfo.reset();
        self.rate_smoother.snap();
        self.depth_smoother.snap();
        self.mix_smoother.snap();
    }

    /// Records a new rate target, clamped into the declared range.
    pub fn set_rate(&mut self, value: i64)
        requires
            old(self)@.wf(),
        ensures
            final(self)@ == (EngineView {
                rate: spec_set_target(old(self)@.rate, value as int),
                ..old(self)@
            }),
            final(self)@.wf(),
    {
        self.rate_smoother.set_target(value);
    }

    /// Records a new depth target, clamped into the declared range.
    pub fn set_depth(&mut self, value: i64)
        requires
            old(self)@.wf(),
        ensures
            final(self)@ == (EngineView {
                depth: spec_set_target(old(self)@.depth, value as int),
                ..old(self)@
            }),
            final(self)@.wf(),
    {
        self.depth_smoother.set_target(value);
    }

    /// Records a new mix target, clamped into the declared range.
    pub fn set_mix(&mut self, value: i64)
        requires
            old(self)@.wf(),
        ensures
            final(self)@ == (EngineView {
                mix: spec_set_target(old(self)@.mix, value as int),
                ..old(self)@
            }),
            final(self)@.wf(),
    {
        self.mix_smoother.set_target(value);
    }

    /// The rate target.
    pub fn rate_target(&self) -> (r: i64)
        ensures
            r == self@.rate.target,
    {
        self.rate_smoother.target_value()
    }

    /// The depth target.
    pub fn depth_target(&self) -> (r: i64)
        ensures
            r == self@.depth.target,
    {
        self.depth_smoother.target_value()
    }

    /// The mix target.
    pub fn mix_target(&self) -> (r: i64)
        ensures
            r == self@.mix.target,
    {
        self.mix_smoother.target_value()
    }

    /// The smoothed rate value on the audio path right now.
    pub fn rate_value(&self) -> (r: i64)
        ensures
            r == self@.rate.current,
    {
        self.rate_smoother.value()
    }

    /// The smoothed depth value on the audio path right now.
    pub fn depth_value(&self) -> (r: i64)
        ensures
            r == self@.depth.current,
    {
        self.depth_smoother.value()
    }

    /// The smoothed mix value on the audio path right now.
    pub fn mix_value(&self) -> (r: i64)
        ensures
            r == self@.mix.current,
    {
        self.mix_smoother.value()
    }

    /// Transforms one dry sample: pulls smoothed parameters, advances the
    /// oscillator, reads the interpolated delayed sample, writes the dry
    /// sample, blends wet and dry, clamps the blend to full scale, and
    /// advances the cursor. On a zero-capacity buffer the dry sample passes
    /// through unmodified.
    pub fn process_sample(&mut self, dry: i64) -> (r: i64)
        requires
            old(self)@.wf(),
            -SAMPLE_LIMIT <= dry <= SAMPLE_LIMIT,
        ensures
            final(self)@ == step_view(old(self)@, dry),
            final(self)@.wf(),
            r == step_output(old(self)@, dry),
            -SCALE <= dry <= SCALE ==> -SCALE <= r <= SCALE,
    {
        let ghost s = self@;
        let rate = self.rate_smoother.next();
        let depth = self.depth_smoother.next();
        let mix = self.mix_smoother.next();
        self.lfo.advance(rate, self.sample_rate);
        let lfo = self.lfo.value();
        let len = self.delay.capacity();
        if len == 0 {
            return dry;
        }
        let sr = self.sample_rate as i64;
        proof {
            assert(0 <= depth * sr <= DEPTH_LIMIT * MAX_SAMPLE_RATE as int) by (nonlinear_arith)
                requires
                    0 <= depth <= DEPTH_LIMIT,
                    1 <= sr <= MAX_SAMPLE_RATE,
            ;
            assert(0 <= depth * sr * (lfo + SCALE) <= DEPTH_LIMIT * (MAX_SAMPLE_RATE as int) * (2
                * SCALE)) by (nonlinear_arith)
                requires
                    0 <= depth * sr <= DEPTH_LIMIT * MAX_SAMPLE_RATE as int,
                    0 <= lfo + SCALE <= 2 * SCALE,
            ;
        }
        let md_num: i64 = depth * sr * (lfo + SCALE);
        proof {
            // The modulation offset never exceeds `depth * sample_rate`,
            // which the capacity was sized for.
            lemma_div_pos_is_pos(md_num as int, 2 * SCALE as int);
            assert(md_num <= depth * sr * (2 * SCALE)) by (nonlinear_arith)
                requires
                    md_num == depth * sr * (lfo + SCALE),
                    0 <= depth * sr,
                    lfo + SCALE <= 2 * SCALE,
            ;
            lemma_div_is_ordered(md_num as int, depth * sr * (2 * SCALE), 2 * SCALE as int);
            assert(depth * sr * (2 * SCALE) == (2 * SCALE as int) * (depth * sr))
                by (nonlinear_arith);
            vstd::arithmetic::div_mod::lemma_div_multiples_vanish(depth * sr, 2 * SCALE as int);
            assert(depth * sr <= s.params.depth.max_value * sr) by (nonlinear_arith)
                requires
                    depth <= s.params.depth.max_value,
                    sr >= 1,
            ;
            lemma_fundamental_div_mod(
                s.params.depth.max_value * sr + SCALE - 1,
                SCALE as int,
            );
            lemma_mod_division_less_than_divisor(
                s.params.depth.max_value * sr + SCALE - 1,
                SCALE as int,
            );
            assert((len as int) * SCALE == SCALE * (len as int)) by (nonlinear_arith);
        }
        let mod_delay: i64 = md_num / (2 * SCALE);
        let wet = self.delay.read_interpolated(mod_delay);
        self.delay.write(dry);
        proof {
            assert(-(SCALE * SAMPLE_LIMIT) <= mix * wet <= SCALE * SAMPLE_LIMIT)
                by (nonlinear_arith)
                requires
                    0 <= mix <= SCALE,
                    -SAMPLE_LIMIT <= wet <= SAMPLE_LIMIT,
            ;
            assert(-(SCALE * SAMPLE_LIMIT) <= (SCALE - mix) * dry <= SCALE * SAMPLE_LIMIT)
                by (nonlinear_arith)
                requires
                    0 <= mix <= SCALE,
                    -SAMPLE_LIMIT <= dry <= SAMPLE_LIMIT,
            ;
        }
        let num: i64 = mix * wet + (SCALE - mix) * dry;
        let blend = div_trunc_i64(num, SCALE);
        let out = clamp_i64(blend, -SCALE, SCALE);
        self.delay.advance();
        proof {
            assert(final(self)@ == step_view(s, dry));
        }
        out
    }

    /// Transforms a block of samples in place, in arrival order, and
    /// reports normal completion.
    pub fn process(&mut self, samples: &mut Vec<i64>) -> (r: ProcessStatus)
        requires
            old(self)@.wf(),
            forall|i: int|
                0 <= i < old(samples)@.len() ==> -SAMPLE_LIMIT <= #[trigger] old(samples)@[i]
                    <= SAMPLE_LIMIT,
        ensures
            r == ProcessStatus::Normal,
            final(self)@ == process_state(old(self)@, old(samples)@),
            final(self)@.wf(),
            final(samples)@ == process_output(old(self)@, old(samples)@),
            final(samples)@.len() == old(samples)@.len(),
    {
        let ghost s0 = self@;
        let ghost input = samples@;
        let n = samples.len();
        let mut i: usize = 0;
        while i < n
            invariant
                i <= n,
                input.len() == n,
                samples@.len() == n,
                forall|j: int| 0 <= j < n ==> -SAMPLE_LIMIT <= #[trigger] input[j] <= SAMPLE_LIMIT,
                forall|j: int| i <= j < n ==> #[trigger] samples@[j] == input[j],
                self@ == process_state(s0, input.subrange(0, i as int)),
                self@.wf(),
                samples@.subrange(0, i as int) == process_output(s0, input.subrange(0, i as int)),
            decreases n - i,
        {
            let dry = samples[i];
            let out = self.process_sample(dry);
            samples[i] = out;
            proof {
                let pre = input.subrange(0, i as int);
                assert(input.subrange(0, i + 1) =~= pre.push(input[i as int]));
                lemma_process_state_snoc(s0, pre, input[i as int]);
                lemma_process_output_snoc(s0, pre, input[i as int]);
                assert(samples@.subrange(0, i + 1) =~= samples@.subrange(0, i as int).push(
                    out,
                ));
            }
            i = i + 1;
        }
        proof {
            assert(input.subrange(0, n as int) =~= input);
            assert(samples@.subrange(0, n as int) =~= samples@);
        }
        ProcessStatus::Normal
    }
}

impl Default for ChorusEngine {
    /// Builds an engine on the declared control surface at the default
    /// sample rate.
    fn default() -> (r: Self)
        ensures
            r@ == fresh_view(standard_parameters(), DEFAULT_SAMPLE_RATE as int),
            r@.wf(),
    {
        ChorusEngine::new(ChorusParameters::default())
    }
}

} // verus!
