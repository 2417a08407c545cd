use redixel::clock::{
    DEFAULT_MAX_SUBSTEPS, DEFAULT_STEP_NANOS, FPS_WINDOW, FixedStepClock, FrameTimes, NANOS_PER_SECOND,
};

const MS: u64 = 1_000_000;

fn drain(clock: &mut FixedStepClock) -> u32 {
    let mut steps: u32 = 0;
    while clock.next_fixed_step() {
        steps += 1;
    }
    steps
}

#[test]
fn fixed_step_defaults_to_60hz() {
    let clock: FixedStepClock = FixedStepClock::new();
    assert_eq!(clock.fixed_delta(), 16_666_666);
    assert_eq!(clock.fixed_delta(), DEFAULT_STEP_NANOS);
    assert_eq!(clock.fixed_tick(), 0);
    assert_eq!(clock.elapsed_time(), 0);
    assert_eq!(clock.banked_time(), 0);
    assert_eq!(clock.max_substeps(), DEFAULT_MAX_SUBSTEPS);
    assert_eq!(clock.max_substeps(), 8);
}

/// The step of a tickrate of `hz`, rounded down to whole nanoseconds.
fn step_of(hz: u64) -> u64 {
    NANOS_PER_SECOND / hz
}

#[test]
fn set_tickrate_changes_step() {
    let mut clock: FixedStepClock = FixedStepClock::new();

    assert!(clock.set_step(step_of(30)));
    assert_eq!(clock.fixed_delta(), 33_333_333);

    assert!(!clock.set_step(0));
    assert_eq!(clock.fixed_delta(), 33_333_333);
}

#[test]
fn accumulator_yields_expected_step_count() {
    let mut clock: FixedStepClock = FixedStepClock::new();
    clock.set_step(step_of(60));
    clock.accumulate(16_666_667);
    assert_eq!(drain(&mut clock), 1);
    assert_eq!(clock.fixed_tick(), 1);

    clock.accumulate(50 * MS);
    assert_eq!(drain(&mut clock), 3);
    assert_eq!(clock.fixed_tick(), 4);
}

#[test]
fn accumulator_carries_remainder_between_frames() {
    let mut clock: FixedStepClock = FixedStepClock::new();

    clock.accumulate(10 * MS);
    assert!(!clock.next_fixed_step(), "a frame shorter than a step must not tick");
    assert_eq!(clock.banked_time(), 10 * MS);

    clock.accumulate(10 * MS);
    assert_eq!(drain(&mut clock), 1);
    assert_eq!(clock.banked_time(), 20 * MS - DEFAULT_STEP_NANOS);
}

#[test]
fn accumulator_clamps_under_stall() {
    let mut clock: FixedStepClock = FixedStepClock::new();
    clock.set_max_substeps(8);

    clock.accumulate(10 * NANOS_PER_SECOND);
    assert_eq!(clock.banked_time(), 8 * DEFAULT_STEP_NANOS);
    assert_eq!(drain(&mut clock), 8, "the bank must clamp to max_substeps");
}

#[test]
fn raising_tickrate_reclamps_banked_time() {
    let mut clock: FixedStepClock = FixedStepClock::new();
    clock.set_step(step_of(20));
    clock.set_max_substeps(8);

    clock.accumulate(10 * NANOS_PER_SECOND);
    assert_eq!(clock.banked_time(), 400 * MS);
    clock.set_step(step_of(60));

    assert_eq!(drain(&mut clock), 8, "a step change must not bypass the max_substeps clamp");
}

#[test]
fn lowering_max_substeps_reclamps_banked_time() {
    let mut clock: FixedStepClock = FixedStepClock::new();
    clock.accumulate(10 * NANOS_PER_SECOND);
    clock.set_max_substeps(2);

    assert_eq!(drain(&mut clock), 2);
}

#[test]
fn zero_max_substeps_means_one() {
    let mut clock: FixedStepClock = FixedStepClock::new();
    clock.set_max_substeps(0);
    assert_eq!(clock.max_substeps(), 1);

    clock.accumulate(NANOS_PER_SECOND);
    assert_eq!(drain(&mut clock), 1);
}

#[test]
fn elapsed_time_sums_frame_deltas() {
    let mut clock: FixedStepClock = FixedStepClock::new();
    for _ in 0..10 {
        clock.accumulate(16 * MS);
    }
    assert_eq!(clock.elapsed_time(), 160 * MS);
}

#[test]
fn elapsed_time_keeps_time_the_accumulator_clamps() {
    let mut clock: FixedStepClock = FixedStepClock::new();
    clock.accumulate(5 * NANOS_PER_SECOND);

    assert!(clock.banked_time() < 5 * NANOS_PER_SECOND);
    assert_eq!(clock.elapsed_time(), 5 * NANOS_PER_SECOND);
}

#[test]
fn elapsed_time_saturates() {
    let mut clock: FixedStepClock = FixedStepClock::new();
    clock.accumulate(u64::MAX);
    clock.accumulate(u64::MAX);
    assert_eq!(clock.elapsed_time(), u64::MAX);
    assert_eq!(clock.banked_time(), 8 * DEFAULT_STEP_NANOS);
}

#[test]
fn a_huge_step_saturates_the_bank() {
    let mut clock: FixedStepClock = FixedStepClock::new();
    clock.set_step(u64::MAX / 2);
    clock.accumulate(u64::MAX);
    clock.accumulate(u64::MAX);
    assert_eq!(clock.banked_time(), u64::MAX);
    assert_eq!(drain(&mut clock), 2);
}

#[test]
fn interpolation_alpha_tracks_partial_step() {
    let mut clock: FixedStepClock = FixedStepClock::new();
    clock.set_step(step_of(100));
    clock.accumulate(5 * MS);
    assert_eq!(clock.banked_time(), 5 * MS);
    let alpha: f64 = clock.banked_time() as f64 / clock.fixed_delta() as f64;
    assert!((alpha - 0.5).abs() < 1e-6);
    assert!(!clock.next_fixed_step());
}

#[test]
fn defaults() {
    let window: FrameTimes = FrameTimes::new();
    assert_eq!(window.len(), 0);
    assert_eq!(window.total(), 0);
    assert_eq!(display_fps(&window), 0.0);
}

/// The smoothed frame rate over the frames a window keeps.
fn display_fps(window: &FrameTimes) -> f64 {
    if window.len() == 0 {
        return 0.0;
    }
    let average: f64 = window.total() as f64 / NANOS_PER_SECOND as f64 / window.len() as f64;
    1.0 / average
}

#[test]
fn display_fps_smooths_spikes() {
    let mut window: FrameTimes = FrameTimes::new();
    for _ in 0..10 {
        window.push(16 * MS);
    }
    window.push(200 * MS);

    let display: f64 = display_fps(&window);
    assert!(display > 30.0, "rolling average should absorb a single spike, got {display}");
}

#[test]
fn display_fps_converges_to_stable_rate() {
    let mut window: FrameTimes = FrameTimes::new();
    for _ in 0..FPS_WINDOW {
        window.push(10 * MS);
    }

    let display: f64 = display_fps(&window);
    assert!(display > 70.0 && display < 130.0, "display_fps should converge near 100, got {display}");
}

#[test]
fn the_frame_window_sums_what_it_keeps() {
    let mut window: FrameTimes = FrameTimes::new();
    for _ in 0..10 {
        window.push(16 * MS);
    }
    window.push(200 * MS);
    assert_eq!(window.len(), 11);
    assert_eq!(window.total(), u128::from(360 * MS));
}

#[test]
fn the_frame_window_keeps_only_the_latest_frames() {
    let mut window: FrameTimes = FrameTimes::new();
    for n in 1..=100u64 {
        window.push(n);
    }
    assert_eq!(window.len(), FPS_WINDOW);
    let kept: u128 = (41..=100u128).sum();
    assert_eq!(window.total(), kept);
}

#[test]
fn the_frame_window_holds_large_times() {
    let mut window: FrameTimes = FrameTimes::new();
    for _ in 0..FPS_WINDOW {
        window.push(u64::MAX);
    }
    assert_eq!(window.total(), u128::from(u64::MAX) * 60);
}
