use chorus::engine::ChorusEngine;
use chorus::params::ChorusParameters;
use chorus::params::ParamConfig;
use chorus::SCALE;

fn impulse_response(engine: &mut ChorusEngine, len: usize) -> Vec<i64> {
    let mut block: Vec<i64> = vec![0; len];
    block[0] = SCALE;
    engine.process(&mut block);
    block
}

#[test]
fn frozen_oscillator_delays_an_impulse_by_240_samples() {
    // Rate zero freezes the oscillator at phase zero, so the modulation
    // offset is exactly 0.01 * 48000 * 0.5 * (0 + 1) = 240 samples: a unit
    // impulse through a full-wet engine comes out once, 240 samples later,
    // at exactly full scale.
    let p = ChorusParameters {
        rate: ParamConfig {
            min_value: 0,
            max_value: 5_000_000,
            default_value: 0,
            smoothing_ms: 40,
        },
        depth: ParamConfig {
            min_value: 0,
            max_value: 20_000,
            default_value: 10_000,
            smoothing_ms: 50,
        },
        mix: ParamConfig {
            min_value: 0,
            max_value: SCALE,
            default_value: SCALE,
            smoothing_ms: 50,
        },
    };
    let mut engine = ChorusEngine::new(p);
    assert!(engine.initialize(48_000));
    let out = impulse_response(&mut engine, 300);
    for (i, v) in out.iter().enumerate() {
        if i == 240 {
            assert_eq!(*v, SCALE);
        } else {
            assert_eq!(*v, 0);
        }
    }
}

#[test]
fn reinitializing_resizes_and_clears_the_buffer() {
    // After adopting 44100 Hz and processing, adopting 48000 Hz must leave
    // a 960-slot cleared buffer and fresh-state behaviour.
    let mut engine = ChorusEngine::new(ChorusParameters::default());
    assert!(engine.initialize(44_100));
    assert_eq!(engine.capacity(), 882);
    let mut noise: Vec<i64> =
        (0..500).map(|n: i64| if n % 3 == 0 { 123_456 } else { -654_321 }).collect();
    engine.process(&mut noise);
    assert!(engine.initialize(48_000));
    assert_eq!(engine.capacity(), 960);
    let out = impulse_response(&mut engine, 500);
    let mut fresh = ChorusEngine::new(ChorusParameters::default());
    assert!(fresh.initialize(48_000));
    let expected = impulse_response(&mut fresh, 500);
    assert_eq!(out, expected);
}

#[test]
fn reset_restores_fresh_state_behaviour() {
    let mut engine = ChorusEngine::new(ChorusParameters::default());
    assert!(engine.initialize(48_000));
    let mut noise: Vec<i64> =
        (0..3000).map(|n: i64| (n * 31_337) % (2 * SCALE) - SCALE).collect();
    engine.process(&mut noise);
    engine.reset();
    let out = impulse_response(&mut engine, 1200);
    let mut fresh = ChorusEngine::new(ChorusParameters::default());
    assert!(fresh.initialize(48_000));
    let expected = impulse_response(&mut fresh, 1200);
    assert_eq!(out, expected);
}

#[test]
fn reset_is_idempotent() {
    let mut engine = ChorusEngine::new(ChorusParameters::default());
    assert!(engine.initialize(48_000));
    let mut noise: Vec<i64> = (0..100).map(|n: i64| n * 1000 - 50_000).collect();
    engine.process(&mut noise);
    engine.reset();
    let once = impulse_response(&mut engine, 300);
    engine.reset();
    engine.reset();
    let twice = impulse_response(&mut engine, 300);
    assert_eq!(once, twice);
}
