use chorus::engine::ChorusEngine;
use chorus::engine::ProcessStatus;
use chorus::params::ChorusParameters;
use chorus::params::ParamConfig;
use chorus::SCALE;

fn params(
    rate: (i64, i64, i64, u32),
    depth: (i64, i64, i64, u32),
    mix: (i64, i64, i64, u32),
) -> ChorusParameters {
    ChorusParameters {
        rate: ParamConfig {
            min_value: rate.0,
            max_value: rate.1,
            default_value: rate.2,
            smoothing_ms: rate.3,
        },
        depth: ParamConfig {
            min_value: depth.0,
            max_value: depth.1,
            default_value: depth.2,
            smoothing_ms: depth.3,
        },
        mix: ParamConfig {
            min_value: mix.0,
            max_value: mix.1,
            default_value: mix.2,
            smoothing_ms: mix.3,
        },
    }
}

#[test]
fn default_parameters_match_the_declared_surface() {
    let p = ChorusParameters::default();
    assert_eq!(p.rate.min_value, 10_000);
    assert_eq!(p.rate.max_value, 5_000_000);
    assert_eq!(p.rate.default_value, 250_000);
    assert_eq!(p.rate.smoothing_ms, 40);
    assert_eq!(p.depth.min_value, 0);
    assert_eq!(p.depth.max_value, 20_000);
    assert_eq!(p.depth.default_value, 10_000);
    assert_eq!(p.depth.smoothing_ms, 50);
    assert_eq!(p.mix.min_value, 0);
    assert_eq!(p.mix.max_value, 1_000_000);
    assert_eq!(p.mix.default_value, 500_000);
    assert_eq!(p.mix.smoothing_ms, 50);
}

#[test]
fn new_engine_assumes_the_default_sample_rate() {
    let engine = ChorusEngine::new(ChorusParameters::default());
    assert_eq!(engine.sample_rate(), 48_000);
    // ceil(0.02 * 48000) slots.
    assert_eq!(engine.capacity(), 960);
    assert_eq!(engine.rate_target(), 250_000);
    assert_eq!(engine.depth_target(), 10_000);
    assert_eq!(engine.mix_target(), 500_000);
    assert_eq!(engine.params(), ChorusParameters::default());
}

#[test]
fn initialize_rejects_a_zero_sample_rate() {
    let mut engine = ChorusEngine::new(ChorusParameters::default());
    assert!(!engine.initialize(0));
    // The prior state is untouched.
    assert_eq!(engine.sample_rate(), 48_000);
    assert_eq!(engine.capacity(), 960);
}

#[test]
fn initialize_rejects_a_sample_rate_past_the_machine_limit() {
    let mut engine = ChorusEngine::new(ChorusParameters::default());
    assert!(!engine.initialize(1_000_001));
    assert_eq!(engine.sample_rate(), 48_000);
}

#[test]
fn initialize_resizes_for_the_reported_rate() {
    let mut engine = ChorusEngine::new(ChorusParameters::default());
    assert!(engine.initialize(44_100));
    assert_eq!(engine.sample_rate(), 44_100);
    // ceil(0.02 * 44100) slots.
    assert_eq!(engine.capacity(), 882);
}

#[test]
fn out_of_range_targets_are_clamped_silently() {
    let mut engine = ChorusEngine::new(ChorusParameters::default());
    engine.set_rate(-5);
    assert_eq!(engine.rate_target(), 10_000);
    engine.set_rate(9_000_000);
    assert_eq!(engine.rate_target(), 5_000_000);
    engine.set_depth(50_000);
    assert_eq!(engine.depth_target(), 20_000);
    engine.set_mix(-1);
    assert_eq!(engine.mix_target(), 0);
}

#[test]
fn targets_ramp_into_the_audio_path() {
    // Mix ramps over 50 ms at 1000 Hz: fifty steps.
    let p = params(
        (0, 5_000_000, 0, 40),
        (0, 20_000, 0, 50),
        (0, SCALE, 0, 50),
    );
    let mut engine = ChorusEngine::new(p);
    assert!(engine.initialize(1000));
    engine.set_mix(50_000);
    assert_eq!(engine.mix_value(), 0);
    engine.process_sample(0);
    assert_eq!(engine.mix_value(), 1000);
    engine.process_sample(0);
    assert_eq!(engine.mix_value(), 2000);
}

#[test]
fn mix_zero_passes_the_dry_signal_through() {
    // Non-trivial depth and rate: the output must still be the input.
    let p = params(
        (0, 5_000_000, 3_000_000, 40),
        (0, 20_000, 17_000, 50),
        (0, SCALE, 0, 50),
    );
    let mut engine = ChorusEngine::new(p);
    assert!(engine.initialize(48_000));
    let input: Vec<i64> = (0..2000).map(|n: i64| (n * 997) % SCALE - SCALE / 2).collect();
    let mut block = input.clone();
    let status = engine.process(&mut block);
    assert_eq!(status, ProcessStatus::Normal);
    assert_eq!(block, input);
}

#[test]
fn depth_zero_blends_dry_with_the_full_cycle_echo() {
    // With zero depth the wet sample is the slot written one full buffer
    // cycle earlier, whatever the rate does.
    let p = params(
        (10_000, 5_000_000, 250_000, 40),
        (0, 20_000, 0, 50),
        (0, SCALE, 500_000, 50),
    );
    let mut engine = ChorusEngine::new(p);
    assert!(engine.initialize(48_000));
    let mut block: Vec<i64> = vec![0; 961];
    block[0] = SCALE;
    engine.process(&mut block);
    for (i, v) in block.iter().enumerate() {
        match i {
            0 | 960 => assert_eq!(*v, 500_000),
            _ => assert_eq!(*v, 0),
        }
    }
}

#[test]
fn depth_zero_output_is_independent_of_the_rate() {
    let mut outputs = Vec::new();
    for rate_default in [10_000i64, 1_000_000, 5_000_000] {
        let p = params(
            (10_000, 5_000_000, rate_default, 40),
            (0, 20_000, 0, 50),
            (0, SCALE, 500_000, 50),
        );
        let mut engine = ChorusEngine::new(p);
        assert!(engine.initialize(48_000));
        let mut block: Vec<i64> =
            (0..1500).map(|n: i64| (n * 7919) % (2 * SCALE) - SCALE).collect();
        engine.process(&mut block);
        outputs.push(block);
    }
    assert_eq!(outputs[0], outputs[1]);
    assert_eq!(outputs[1], outputs[2]);
}

#[test]
fn mix_one_clamps_the_wet_signal() {
    // Zero depth and full mix: the output is the one-cycle echo, clamped.
    let p = params(
        (10_000, 5_000_000, 250_000, 40),
        (0, 20_000, 0, 50),
        (0, SCALE, SCALE, 50),
    );
    let mut engine = ChorusEngine::new(p);
    assert!(engine.initialize(48_000));
    let mut block: Vec<i64> = vec![0; 961];
    block[0] = 2 * SCALE;
    engine.process(&mut block);
    for (i, v) in block.iter().enumerate() {
        match i {
            // The over-full echo comes back clamped to full scale.
            960 => assert_eq!(*v, SCALE),
            _ => assert_eq!(*v, 0),
        }
    }
}

#[test]
fn output_stays_within_full_scale_under_parameter_motion() {
    let mut engine = ChorusEngine::new(ChorusParameters::default());
    assert!(engine.initialize(48_000));
    engine.set_rate(3_000_000);
    engine.set_depth(15_000);
    engine.set_mix(750_000);
    let mut block: Vec<i64> =
        (0..4000).map(|n: i64| if n % 2 == 0 { SCALE } else { -SCALE }).collect();
    engine.process(&mut block);
    for v in block {
        assert!(-SCALE <= v && v <= SCALE);
    }
}

#[test]
fn zero_capacity_degenerates_to_dry_passthrough() {
    // A zero maximum depth leaves a zero-capacity buffer: even a full-wet
    // engine passes the dry signal through unmodified.
    let p = params(
        (10_000, 5_000_000, 250_000, 40),
        (0, 0, 0, 50),
        (0, SCALE, SCALE, 50),
    );
    let mut engine = ChorusEngine::new(p);
    assert_eq!(engine.capacity(), 0);
    let input: Vec<i64> = vec![5, -17, 123_456, -SCALE, SCALE];
    let mut block = input.clone();
    let status = engine.process(&mut block);
    assert_eq!(status, ProcessStatus::Normal);
    assert_eq!(block, input);
}

#[test]
fn process_reports_normal_completion_on_an_empty_block() {
    let mut engine = ChorusEngine::new(ChorusParameters::default());
    let mut block: Vec<i64> = Vec::new();
    assert_eq!(engine.process(&mut block), ProcessStatus::Normal);
    assert!(block.is_empty());
}

#[test]
fn default_engine_behaves_like_one_built_on_default_parameters() {
    let mut a = ChorusEngine::default();
    let mut b = ChorusEngine::new(ChorusParameters::default());
    assert_eq!(a.capacity(), b.capacity());
    assert_eq!(a.sample_rate(), b.sample_rate());
    let mut block_a: Vec<i64> = (0..600).map(|n: i64| (n * 541) % SCALE - SCALE / 2).collect();
    let mut block_b = block_a.clone();
    a.process(&mut block_a);
    b.process(&mut block_b);
    assert_eq!(block_a, block_b);
}
