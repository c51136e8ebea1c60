use chorus::lfo::Lfo;
use chorus::SCALE;

#[test]
fn value_at_phase_zero_is_zero() {
    let lfo = Lfo::new();
    assert_eq!(lfo.value(), 0);
}

#[test]
fn quarter_cycle_steps_trace_the_wave() {
    // One hertz at four samples per second: a quarter cycle per sample.
    let mut lfo = Lfo::new();
    lfo.advance(SCALE, 4);
    assert_eq!(lfo.value(), 999_999);
    lfo.advance(SCALE, 4);
    assert_eq!(lfo.value(), 0);
    lfo.advance(SCALE, 4);
    assert_eq!(lfo.value(), -999_999);
    lfo.advance(SCALE, 4);
    assert_eq!(lfo.value(), -2);
}

#[test]
fn phase_wraps_around_the_cycle() {
    let mut lfo = Lfo::new();
    for _ in 0..5 {
        lfo.advance(SCALE, 4);
    }
    // Five quarter cycles have wrapped back into the first one.
    assert_eq!(lfo.value(), 999_999);
}

#[test]
fn zero_rate_freezes_the_phase() {
    let mut lfo = Lfo::new();
    for _ in 0..1000 {
        lfo.advance(0, 48_000);
    }
    assert_eq!(lfo.value(), 0);
}

#[test]
fn value_stays_within_full_scale() {
    let mut lfo = Lfo::new();
    for _ in 0..10_000 {
        lfo.advance(4_999_999, 48_000);
        let v = lfo.value();
        assert!(-SCALE <= v && v <= SCALE);
    }
}

#[test]
fn reset_returns_to_phase_zero() {
    let mut lfo = Lfo::new();
    lfo.advance(SCALE, 4);
    lfo.reset();
    assert_eq!(lfo.value(), 0);
}
