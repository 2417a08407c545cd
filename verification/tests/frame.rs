use redixel::clock::{DEFAULT_STEP_NANOS, FixedStepClock, NANOS_PER_SECOND};
use redixel::frame::{Frame, FrameAction, FrameStage};
use redixel::runtime::FrameOutcome;

fn clock_with(banked: u64) -> FixedStepClock {
    let mut clock: FixedStepClock = FixedStepClock::new();
    clock.accumulate(banked);
    clock
}

#[test]
fn a_frame_with_no_step_owed_goes_straight_to_the_update() {
    let mut clock: FixedStepClock = clock_with(DEFAULT_STEP_NANOS - 1);
    let (mut frame, action): (Frame, FrameAction) = Frame::begin(&mut clock, None, 0);
    assert_eq!(action, FrameAction::Update);
    assert_eq!(frame.stage(), FrameStage::Updating);
    assert_eq!(frame.fixed_steps(), 0);
    assert_eq!(clock.fixed_tick(), 0);

    assert_eq!(frame.after_update(false), FrameAction::Render);
    assert_eq!(frame.after_render(FrameOutcome::Continue), FrameAction::EndFrame { resize: false });
    assert_eq!(frame.stage(), FrameStage::Over);
}

#[test]
fn a_frame_runs_every_owed_step_then_updates_and_renders() {
    let mut clock: FixedStepClock = clock_with(3 * DEFAULT_STEP_NANOS);
    let (mut frame, mut action): (Frame, FrameAction) = Frame::begin(&mut clock, None, 0);
    let mut steps: u32 = 0;
    while action == FrameAction::FixedUpdate {
        steps += 1;
        action = frame.after_fixed_update(&mut clock, false, false);
    }
    assert_eq!(steps, 3);
    assert_eq!(frame.fixed_steps(), 3);
    assert_eq!(clock.fixed_tick(), 3);
    assert_eq!(action, FrameAction::Update);
    assert_eq!(frame.after_update(false), FrameAction::Render);
    assert_eq!(frame.after_render(FrameOutcome::Resize), FrameAction::EndFrame { resize: true });
}

#[test]
fn a_stalled_frame_runs_at_most_max_substeps() {
    let mut clock: FixedStepClock = clock_with(10 * NANOS_PER_SECOND);
    let (mut frame, mut action): (Frame, FrameAction) = Frame::begin(&mut clock, None, 0);
    while action == FrameAction::FixedUpdate {
        action = frame.after_fixed_update(&mut clock, false, false);
    }
    assert_eq!(frame.fixed_steps(), clock.max_substeps());
    assert_eq!(frame.fixed_steps(), 8);
}

#[test]
fn a_failed_fixed_update_ends_the_run() {
    let mut clock: FixedStepClock = clock_with(3 * DEFAULT_STEP_NANOS);
    let (mut frame, action): (Frame, FrameAction) = Frame::begin(&mut clock, None, 0);
    assert_eq!(action, FrameAction::FixedUpdate);

    assert_eq!(frame.after_fixed_update(&mut clock, true, false), FrameAction::Fatal);
    assert_eq!(frame.stage(), FrameStage::Over);
    assert_eq!(clock.fixed_tick(), 1, "no further step is drawn after a failure");
}

#[test]
fn a_failure_wins_over_an_exit_request() {
    let mut clock: FixedStepClock = clock_with(DEFAULT_STEP_NANOS);
    let (mut frame, _): (Frame, FrameAction) = Frame::begin(&mut clock, None, 0);
    assert_eq!(frame.after_fixed_update(&mut clock, true, true), FrameAction::Fatal);
}

#[test]
fn an_exit_request_during_the_fixed_updates_stops_the_loop() {
    let mut clock: FixedStepClock = clock_with(2 * DEFAULT_STEP_NANOS);
    let (mut frame, _): (Frame, FrameAction) = Frame::begin(&mut clock, None, 0);
    assert_eq!(frame.after_fixed_update(&mut clock, false, true), FrameAction::Exit);
    assert_eq!(clock.fixed_tick(), 1);
    assert_eq!(clock.banked_time(), DEFAULT_STEP_NANOS);
}

#[test]
fn an_exit_request_in_the_update_skips_rendering() {
    let mut clock: FixedStepClock = FixedStepClock::new();
    let (mut frame, _): (Frame, FrameAction) = Frame::begin(&mut clock, None, 0);
    assert_eq!(frame.after_update(true), FrameAction::Exit);
    assert_eq!(frame.stage(), FrameStage::Over);
}

#[test]
fn a_fatal_render_ends_the_run() {
    let mut clock: FixedStepClock = FixedStepClock::new();
    let (mut frame, _): (Frame, FrameAction) = Frame::begin(&mut clock, None, 0);
    frame.after_update(false);
    assert_eq!(frame.after_render(FrameOutcome::Fatal), FrameAction::Fatal);
}

#[test]
fn a_new_step_is_adopted_before_the_frame_is_banked() {
    let mut clock: FixedStepClock = FixedStepClock::new();
    clock.set_step(50_000_000);
    clock.accumulate(10 * NANOS_PER_SECOND);
    assert_eq!(clock.banked_time(), 400_000_000);

    let (mut frame, mut action): (Frame, FrameAction) =
        Frame::begin(&mut clock, Some(DEFAULT_STEP_NANOS), 10 * NANOS_PER_SECOND);
    assert_eq!(clock.fixed_delta(), DEFAULT_STEP_NANOS);
    while action == FrameAction::FixedUpdate {
        action = frame.after_fixed_update(&mut clock, false, false);
    }
    assert_eq!(frame.fixed_steps(), 8, "the shorter step must not bypass the max_substeps clamp");
    assert_eq!(clock.elapsed_time(), 20 * NANOS_PER_SECOND);
}

#[test]
fn a_frame_banks_its_own_time() {
    let mut clock: FixedStepClock = FixedStepClock::new();
    let (_, action): (Frame, FrameAction) = Frame::begin(&mut clock, None, 2 * DEFAULT_STEP_NANOS);
    assert_eq!(action, FrameAction::FixedUpdate);
    assert_eq!(clock.banked_time(), DEFAULT_STEP_NANOS);
    assert_eq!(clock.fixed_tick(), 1);
}

#[test]
fn a_zero_step_is_ignored() {
    let mut clock: FixedStepClock = FixedStepClock::new();
    let (_, action): (Frame, FrameAction) = Frame::begin(&mut clock, Some(0), 0);
    assert_eq!(action, FrameAction::Update);
    assert_eq!(clock.fixed_delta(), DEFAULT_STEP_NANOS);
}
