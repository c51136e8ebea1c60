use chorus::smoother::ParameterSmoother;

#[test]
fn ramp_reaches_target_in_configured_steps() {
    // 10 ms at 1000 Hz: a ten-step ramp.
    let mut s = ParameterSmoother::new(0, 1_000_000, 0, 10, 1000);
    s.set_target(1000);
    assert_eq!(s.target_value(), 1000);
    let mut seen = Vec::new();
    for _ in 0..12 {
        seen.push(s.next());
    }
    assert_eq!(seen, vec![100, 200, 300, 400, 500, 600, 700, 800, 900, 1000, 1000, 1000]);
}

#[test]
fn ramp_never_overshoots_on_uneven_distance() {
    let mut s = ParameterSmoother::new(0, 1_000_000, 0, 10, 1000);
    s.set_target(995);
    let mut seen = Vec::new();
    for _ in 0..12 {
        seen.push(s.next());
    }
    assert_eq!(seen, vec![99, 198, 297, 396, 495, 594, 693, 792, 891, 995, 995, 995]);
}

#[test]
fn downward_ramp_holds_at_target() {
    let mut s = ParameterSmoother::new(-1_000_000, 1_000_000, 600, 5, 1000);
    s.set_target(-400);
    let mut seen = Vec::new();
    for _ in 0..7 {
        seen.push(s.next());
    }
    assert_eq!(seen, vec![400, 200, 0, -200, -400, -400, -400]);
}

#[test]
fn out_of_range_target_is_clamped() {
    let mut s = ParameterSmoother::new(0, 1_000_000, 500, 10, 1000);
    s.set_target(2_000_000);
    assert_eq!(s.target_value(), 1_000_000);
    s.set_target(-3);
    assert_eq!(s.target_value(), 0);
}

#[test]
fn setting_a_target_does_not_jump_the_current_value() {
    let mut s = ParameterSmoother::new(0, 1_000_000, 0, 10, 1000);
    s.set_target(1000);
    assert_eq!(s.value(), 0);
    s.next();
    assert_eq!(s.value(), 100);
}

#[test]
fn snap_lands_on_the_target_at_once() {
    let mut s = ParameterSmoother::new(0, 1_000_000, 0, 10, 1000);
    s.set_target(1000);
    s.next();
    s.snap();
    assert_eq!(s.value(), 1000);
    assert_eq!(s.next(), 1000);
}

#[test]
fn zero_duration_ramp_jumps_immediately() {
    let mut s = ParameterSmoother::new(0, 1_000_000, 0, 0, 1000);
    s.set_target(777);
    assert_eq!(s.value(), 777);
    assert_eq!(s.next(), 777);
}

#[test]
fn configure_recomputes_the_ramp_length() {
    // 10 ms at 2000 Hz: a twenty-step ramp after reconfiguration.
    let mut s = ParameterSmoother::new(0, 1_000_000, 0, 10, 1000);
    s.configure(2000);
    s.set_target(1000);
    assert_eq!(s.next(), 50);
    assert_eq!(s.next(), 100);
}

#[test]
fn reset_snaps_current_and_target_at_once() {
    let mut s = ParameterSmoother::new(0, 1_000_000, 0, 10, 1000);
    s.set_target(1000);
    s.next();
    s.reset(640);
    assert_eq!(s.value(), 640);
    assert_eq!(s.target_value(), 640);
    assert_eq!(s.next(), 640);
    // The reset value is clamped into the declared range too.
    s.reset(-9);
    assert_eq!(s.value(), 0);
}
