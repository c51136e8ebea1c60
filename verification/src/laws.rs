//! Laws of the per-sample pipeline, stated over the engine's mathematical
//! state and proved for every well-formed state.

use vstd::prelude::*;
use vstd::arithmetic::div_mod::lemma_div_of0;
use vstd::arithmetic::div_mod::lemma_div_multiples_vanish;
use vstd::arithmetic::div_mod::lemma_mod_multiples_basic;
use vstd::arithmetic::div_mod::lemma_small_mod;
use crate::clamp_spec;
use crate::delay::frac_spec;
use crate::delay::index_a_spec;
use crate::delay::read_pos_spec;
use crate::div_trunc;
use crate::engine::init_view;
use crate::engine::process_output;
use crate::engine::reset_view;
use crate::engine::step_mix;
use crate::engine::step_mod_delay;
use crate::engine::step_output;
use crate::engine::step_view;
use crate::engine::step_wet;
use crate::engine::EngineView;
use crate::lemma_div_trunc_mul_cancel;
use crate::SAMPLE_LIMIT;
use crate::SCALE;

verus! {

/// With the depth smoother resting on zero, the modulation offset of a step
/// is zero, the wet sample is exactly the slot under the write cursor (the
/// sample written one full buffer cycle ago), and the output is a pure
/// blend of the dry sample with that slot -- an expression free of the rate
/// and of the oscillator phase.
pub proof fn lemma_depth_zero_step(s: EngineView, dry: i64)
    requires
        s.wf(),
        s.delay.samples.len() > 0,
        s.depth.current == 0,
        s.depth.steps_left == 0,
    ensures
        step_mod_delay(s) == 0,
        step_wet(s) == s.delay.samples[s.delay.write_pos],
        step_output(s, dry) == clamp_spec(
            div_trunc(
                step_mix(s) * s.delay.samples[s.delay.write_pos] + (SCALE - step_mix(s)) * dry,
                SCALE as int,
            ),
            -SCALE as int,
            SCALE as int,
        ),
{
    let len = s.delay.samples.len() as int;
    let wp = s.delay.write_pos;
    assert(crate::engine::step_depth(s) == 0);
    assert(0 * s.sample_rate * (crate::engine::step_lfo(s) + SCALE) == 0) by (nonlinear_arith);
    lemma_div_of0(2 * SCALE as int);
    assert(step_mod_delay(s) == 0);
    assert(wp * SCALE + len * SCALE - 0 == wp * SCALE + len * SCALE);
    assert((wp * SCALE + len * SCALE) % (len * SCALE) == wp * SCALE) by {
        vstd::arithmetic::div_mod::lemma_mod_add_multiples_vanish(wp * SCALE, len * SCALE);
        assert(0 <= wp * SCALE < len * SCALE) by (nonlinear_arith)
            requires
                0 <= wp < len,
                SCALE > 0,
        ;
        lemma_small_mod((wp * SCALE) as nat, (len * SCALE) as nat);
    }
    assert(read_pos_spec(s.delay, 0) == wp * SCALE);
    assert(index_a_spec(s.delay, 0) == wp) by {
        assert(wp * SCALE == SCALE * wp) by (nonlinear_arith);
        lemma_div_multiples_vanish(wp, SCALE as int);
    }
    assert(frac_spec(s.delay, 0) == 0) by {
        lemma_mod_multiples_basic(wp, SCALE as int);
    }
    let a = s.delay.samples[wp];
    assert(step_wet(s) == div_trunc((SCALE - 0) * a + 0 * s.delay.samples[(wp + 1) % len],
    SCALE as int));
    assert(0 * s.delay.samples[(wp + 1) % len] == 0) by (nonlinear_arith);
    assert(SCALE * a == (SCALE - 0) * a + 0);
    lemma_div_trunc_mul_cancel(a as int, SCALE as int);
}

/// With the depth smoother resting on zero, two engines that share the same
/// buffer and the same mix smoother produce the same output for the same
/// dry sample, whatever their rate smoothers and oscillator phases hold.
pub proof fn lemma_depth_zero_rate_independent(s1: EngineView, s2: EngineView, dry: i64)
    requires
        s1.wf(),
        s2.wf(),
        s1.depth.current == 0,
        s1.depth.steps_left == 0,
        s2.depth.current == 0,
        s2.depth.steps_left == 0,
        s1.delay == s2.delay,
        s1.mix == s2.mix,
    ensures
        step_output(s1, dry) == step_output(s2, dry),
{
    if s1.delay.samples.len() > 0 {
        lemma_depth_zero_step(s1, dry);
        lemma_depth_zero_step(s2, dry);
    }
}

/// With the mix smoother resting on zero, the output of a step is the dry
/// sample, clamped to full scale -- and exactly the dry sample whenever it
/// lies within full scale -- regardless of depth and rate.
pub proof fn lemma_mix_zero_step(s: EngineView, dry: i64)
    requires
        s.wf(),
        s.mix.current == 0,
        s.mix.steps_left == 0,
    ensures
        s.delay.samples.len() > 0 ==> step_output(s, dry) == clamp_spec(
            dry as int,
            -SCALE as int,
            SCALE as int,
        ),
        -SCALE <= dry <= SCALE ==> step_output(s, dry) == dry,
{
    if s.delay.samples.len() > 0 {
        assert(step_mix(s) == 0);
        assert(0 * step_wet(s) == 0) by (nonlinear_arith);
        assert(0 * step_wet(s) + (SCALE - 0) * dry == SCALE * dry);
        lemma_div_trunc_mul_cancel(dry as int, SCALE as int);
    }
}

/// With the mix smoother resting on one, the output of a step is the wet
/// sample, clamped to full scale: the dry sample no longer contributes.
pub proof fn lemma_mix_full_step(s: EngineView, dry: i64)
    requires
        s.wf(),
        s.mix.current == SCALE,
        s.mix.steps_left == 0,
        s.delay.samples.len() > 0,
    ensures
        step_output(s, dry) == clamp_spec(step_wet(s), -SCALE as int, SCALE as int),
{
    assert(step_mix(s) == SCALE);
    assert((SCALE - SCALE) * dry == 0) by (nonlinear_arith);
    assert(SCALE * step_wet(s) + (SCALE - SCALE) * dry == SCALE * step_wet(s));
    lemma_div_trunc_mul_cancel(step_wet(s), SCALE as int);
}

/// The output of a step lies within full scale for any full-scale dry
/// sample and any well-formed state, whatever the parameter values.
pub proof fn lemma_output_bounded(s: EngineView, dry: i64)
    requires
        s.wf(),
        -SCALE <= dry <= SCALE,
    ensures
        -SCALE <= step_output(s, dry) <= SCALE,
{
}

/// One step of a well-formed engine on an admissible dry sample leaves a
/// well-formed engine.
pub proof fn lemma_step_view_wf(s: EngineView, dry: i64)
    requires
        s.wf(),
        -SAMPLE_LIMIT <= dry <= SAMPLE_LIMIT,
    ensures
        step_view(s, dry).wf(),
{
    crate::smoother::lemma_spec_next_wf(s.rate);
    crate::smoother::lemma_spec_next_wf(s.depth);
    crate::smoother::lemma_spec_next_wf(s.mix);
    let len = s.delay.samples.len() as int;
    assert(0 <= step_view(s, dry).phase < crate::TAU_FP) by {
        let rate = crate::engine::step_rate(s);
        let inc = crate::lfo::lfo_increment(rate, s.sample_rate);
        assert(SCALE * s.sample_rate > 0) by (nonlinear_arith)
            requires
                s.sample_rate >= 1,
        ;
        assert(rate * crate::TAU_FP >= 0) by (nonlinear_arith)
            requires
                rate >= 0,
        ;
        vstd::arithmetic::div_mod::lemma_div_pos_is_pos(
            rate * crate::TAU_FP,
            SCALE * s.sample_rate,
        );
        vstd::arithmetic::div_mod::lemma_mod_division_less_than_divisor(
            s.phase + inc,
            crate::TAU_FP as int,
        );
    }
    if len > 0 {
        vstd::arithmetic::div_mod::lemma_mod_division_less_than_divisor(
            s.delay.write_pos + 1,
            len,
        );
    }
}

/// Every output of a processed block lies within full scale when every
/// input sample does.
pub proof fn lemma_process_output_bounded(s: EngineView, input: Seq<i64>)
    requires
        s.wf(),
        forall|i: int| 0 <= i < input.len() ==> -SCALE <= #[trigger] input[i] <= SCALE,
    ensures
        forall|i: int|
            0 <= i < process_output(s, input).len() ==> -SCALE <= #[trigger] process_output(
                s,
                input,
            )[i] <= SCALE,
    decreases input.len(),
{
    if input.len() > 0 {
        let rest = input.subrange(1, input.len() as int);
        lemma_output_bounded(s, input[0]);
        lemma_step_view_wf(s, input[0]);
        lemma_process_output_bounded(step_view(s, input[0]), rest);
        assert(forall|i: int|
            0 <= i < process_output(s, input).len() ==> -SCALE <= #[trigger] process_output(
                s,
                input,
            )[i] <= SCALE) by {
            let head = seq![step_output(s, input[0]) as i64];
            let tail = process_output(step_view(s, input[0]), rest);
            assert(process_output(s, input) == head.add(tail));
            assert forall|i: int| 0 <= i < head.add(tail).len() implies -SCALE <= #[trigger] head.add(
                tail,
            )[i] <= SCALE by {
                if i == 0 {
                    assert(head.add(tail)[0] == step_output(s, input[0]) as i64);
                } else {
                    assert(head.add(tail)[i] == tail[i - 1]);
                }
            }
        }
    }
}

/// With the mix smoother resting on zero, a whole processed block comes out
/// equal to its input, sample for sample, whatever the depth and rate do.
pub proof fn lemma_process_mix_zero(s: EngineView, input: Seq<i64>)
    requires
        s.wf(),
        s.mix.current == 0,
        s.mix.steps_left == 0,
        forall|i: int| 0 <= i < input.len() ==> -SCALE <= #[trigger] input[i] <= SCALE,
    ensures
        process_output(s, input) == input,
    decreases input.len(),
{
    if input.len() > 0 {
        let rest = input.subrange(1, input.len() as int);
        let sv = step_view(s, input[0]);
        lemma_mix_zero_step(s, input[0]);
        lemma_step_view_wf(s, input[0]);
        assert(sv.mix == s.mix);
        lemma_process_mix_zero(sv, rest);
        assert(process_output(s, input) =~= input);
    } else {
        assert(process_output(s, input) =~= input);
    }
}

/// A reset leaves exactly the state that adopting the current sample rate
/// afresh leaves: an all-zero buffer of the same capacity, cursor zero,
/// phase zero, and smoothers snapped onto their kept targets.
pub proof fn lemma_reset_is_fresh(s: EngineView)
    requires
        s.wf(),
    ensures
        reset_view(s) == init_view(s, s.sample_rate),
{
    assert(reset_view(s).delay.samples =~= init_view(s, s.sample_rate).delay.samples);
}

} // verus!
