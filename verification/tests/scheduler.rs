use orbit_core::fixed::SCALE;
use orbit_core::timescale::{time_scale_fraction, FixedStep, TimeScale, BASE_TICK, TICK_CAP};

#[test]
fn ladder_is_powers_of_two_around_one() {
    assert_eq!(TimeScale::from_selection(1).factor, SCALE / 16);
    assert_eq!(TimeScale::from_selection(4).factor, SCALE / 2);
    assert_eq!(TimeScale::from_selection(5).factor, SCALE);
    assert_eq!(TimeScale::from_selection(6).factor, 2 * SCALE);
    assert_eq!(TimeScale::from_selection(10).factor, 32 * SCALE);
    assert_eq!(TimeScale::default().factor, SCALE);
}

#[test]
fn speeding_up_shortens_the_period_slowing_down_does_not() {
    assert_eq!(TimeScale::from_selection(5).delta(), BASE_TICK);
    assert_eq!(TimeScale::from_selection(1).delta(), BASE_TICK);
    assert_eq!(TimeScale::from_selection(7).delta(), BASE_TICK / 4);
    assert_eq!(TimeScale::from_selection(10).delta(), 34);  // 1092 / 32, rounded down
}

#[test]
fn simulated_step_is_factor_times_period() {
    assert_eq!(TimeScale::from_selection(5).sim_step(), BASE_TICK);
    assert_eq!(TimeScale::from_selection(7).sim_step(), BASE_TICK);  // 4 * 273
    assert_eq!(TimeScale::from_selection(1).sim_step(), 68);  // 1092 / 16, rounded down
    assert_eq!(TimeScale::from_selection(10).sim_step(), 1088);  // 32 * 34
}

#[test]
fn accumulator_runs_one_tick_per_full_period() {
    let mut scheduler = FixedStep::new();
    let period = TimeScale::default().delta();
    // six periods of wall time produce exactly six ticks, nothing left
    assert_eq!(scheduler.advance(6 * period, period), 6);
    assert_eq!(scheduler.accumulator, 0);
    // half a period accumulates without ticking
    assert_eq!(scheduler.advance(period / 2, period), 0);
    assert_eq!(scheduler.accumulator, period / 2);
    // the second half completes the tick
    assert_eq!(scheduler.advance(period - period / 2, period), 1);
    assert_eq!(scheduler.accumulator, 0);
}

#[test]
fn accumulator_caps_catch_up_and_discards_the_excess() {
    let mut scheduler = FixedStep::new();
    let period = BASE_TICK;
    let ticks = scheduler.advance(20 * period, period);
    assert_eq!(ticks, TICK_CAP);
    assert_eq!(scheduler.accumulator, 0);  // the excess 12 periods are dropped
}

#[test]
fn accumulator_never_goes_negative() {
    let mut scheduler = FixedStep::new();
    let period = BASE_TICK;
    assert_eq!(scheduler.advance(0, period), 0);
    assert_eq!(scheduler.accumulator, 0);
    scheduler.advance(period + 7, period);
    assert_eq!(scheduler.accumulator, 7);
}

#[test]
fn fraction_labels_match_the_ladder() {
    assert_eq!(time_scale_fraction(1), "1/16");
    assert_eq!(time_scale_fraction(4), "1/2");
    assert_eq!(time_scale_fraction(5), "1");
    assert_eq!(time_scale_fraction(9), "16");
    assert_eq!(time_scale_fraction(10), "32");
}
