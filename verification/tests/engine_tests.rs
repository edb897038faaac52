use pistolhot::fx::FX_SCALE;
use pistolhot::pendulum::Pendulum;
use pistolhot::simulator::Simulator;
use pistolhot::synth::{get_lengths, note_frequency};
use pistolhot::trig::FX_TWO_PI;

#[test]
fn energy_converges_from_rest() {
    // energy monotonicity: from rest, with response one, the total energy
    // reaches the target (up to the fixed-point truncation) in one call and
    // stays there
    let mut p = Pendulum::default();
    let target: i64 = 300 * FX_SCALE;
    let mut totals = Vec::new();
    for _ in 0..4 {
        Simulator::adjust_energy(&mut p, target, FX_SCALE);
        let total = Simulator::potential_energy(&p) + Simulator::kinetic_energy(&p);
        totals.push(total);
    }
    for &t in &totals {
        assert!((t - target).abs() <= 2000, "total {} vs target {}", t, target);
    }
    // exact value of the converged total for this target
    assert_eq!(totals[0], 314572619);
    assert_eq!(totals[3], 314572619);
}

#[test]
fn energy_adjustment_keeps_swing_direction() {
    let mut p = Pendulum::default();
    p.p0 = -1000;
    Simulator::adjust_energy(&mut p, 300 * FX_SCALE, FX_SCALE);
    assert!(p.p0 < 0);
}

#[test]
fn angles_stay_wrapped_over_many_steps() {
    let mut p = Pendulum::default();
    p.g = 981000 * FX_SCALE;
    p.p0 = 40 * FX_SCALE;
    p.p1 = -25 * FX_SCALE;
    for _ in 0..2000 {
        p.update(23);
        assert!(-FX_TWO_PI < p.theta0 && p.theta0 < FX_TWO_PI);
        assert!(-FX_TWO_PI < p.theta1 && p.theta1 < FX_TWO_PI);
    }
}

#[test]
fn lengths_equal_at_full_chaoticity() {
    let (l0, l1) = get_lengths(134580, FX_SCALE);
    assert_eq!(l0, 89720);
    assert_eq!(l1, 89720);
}

#[test]
fn lengths_skewed_at_low_chaoticity() {
    let (l0, l1) = get_lengths(134580, 104858);
    assert_eq!(l0, 128171);
    assert_eq!(l1, 12817);
    assert!(8 * l1 <= l0);
}

#[test]
fn lengths_scale_linearly_with_budget() {
    let (l0a, _) = get_lengths(134580, 524288);
    let (l0b, _) = get_lengths(2 * 134580, 524288);
    assert!(2 * l0a <= l0b && l0b <= 2 * l0a + 1);
    let (l0c, _) = get_lengths(10 * 134580, 524288);
    assert!(10 * l0a <= l0c && l0c <= 10 * l0a + 10);
}

#[test]
fn note_sixty_nine_is_concert_pitch() {
    // 440 Hz within a fraction of a percent, in fixed-point Hz
    let f = note_frequency(69);
    assert_eq!(f, 461384896);
    let exact: i64 = 440 * FX_SCALE;
    assert!((f - exact).abs() * 1000 / exact < 2);
    // octave doubling is exact
    assert_eq!(note_frequency(81), 2 * f);
}

#[test]
fn simulator_time_debt_accounting() {
    let mut sim = Simulator::default();
    // one sample at 44100 Hz is one fixed-point unit more than the step,
    // so a single update runs at least one physics step
    sim.update(24, 0, 0);
    assert!(sim.time_error <= 0);
    assert!(sim.time_error > -sim.step_size);
    // with no pending debt, nothing runs
    let before = sim.pendulum;
    sim.update(0, 0, 0);
    assert_eq!(before, sim.pendulum);
}

#[test]
fn resting_simulator_reads_zero_displacement() {
    let sim = Simulator::default();
    assert_eq!(sim.get_normalized_x(), 0);
}
