//! The order of one frame: the fixed updates the clock owes, then the
//! per-frame update, then rendering, and how each of them can end the frame
//! or the run.
//!
//! The loop that calls into the game and the renderer asks a [`Frame`] what
//! to do next after each call, and tells it what came back.

use vstd::prelude::*;

use crate::clock::FixedStepClock;
use crate::runtime::FrameOutcome;

verus! {

/// What the frame loop does next.
#[derive(Debug, Clone, Copy, PartialEq, Eq, Structural)]
pub enum FrameAction {
    /// One fixed step was drawn from the clock: run one fixed update.
    FixedUpdate,
    /// Every fixed step owed has run: run the per-frame update. A loop with
    /// no window ends its frame here.
    Update,
    /// Run the game's render pass and render the frame.
    Render,
    /// The frame is over: end it, resizing the surface to the window first
    /// if `resize` is set.
    EndFrame { resize: bool },
    /// The game asked to stop: stop the loop.
    Exit,
    /// The game or the renderer failed: record the error and stop the loop.
    Fatal,
}

/// How far one frame has got.
#[derive(Debug, Clone, Copy, PartialEq, Eq, Structural)]
pub enum FrameStage {
    /// Running the fixed updates the clock owes.
    Stepping,
    /// Running the per-frame update.
    Updating,
    /// Rendering.
    Rendering,
    /// Nothing left to do in this frame.
    Over,
}

/// The step a clock runs at once a frame has begun on it with
/// `adopted_step`: that step if it is given and not zero, else its own.
pub open spec fn step_after(clock: FixedStepClock, adopted_step: Option<u64>) -> int {
    match adopted_step {
        Some(step) => if step > 0 {
            step as int
        } else {
            clock.step() as int
        },
        None => clock.step() as int,
    }
}

/// The time a clock has banked once a frame has begun on it, before any step
/// is drawn: its bank capped to the adopted step, then the frame's `delta`
/// added (saturating) and capped again.
pub open spec fn banked_after(clock: FixedStepClock, adopted_step: Option<u64>, delta: u64) -> int {
    let step = step_after(clock, adopted_step);
    let cap = clock.substep_cap() as int;
    let rebanked = if adopted_step matches Some(s) && s > 0 {
        FixedStepClock::capped(clock.banked() as int, step, cap)
    } else {
        clock.banked() as int
    };
    FixedStepClock::capped(
        if rebanked + delta > u64::MAX {
            u64::MAX as int
        } else {
            rebanked + delta
        },
        step,
        cap,
    )
}

/// One frame in progress, and how many fixed updates it has run.
#[derive(Debug)]
pub struct Frame {
    stage: FrameStage,
    fixed_steps: u32,
}

impl Frame {
    /// How far the frame has got.
    pub closed spec fn stage_view(&self) -> FrameStage {
        self.stage
    }

    /// Fixed updates the frame has run or is running.
    pub closed spec fn steps_view(&self) -> nat {
        self.fixed_steps as nat
    }

    /// The frame and the clock it draws steps from agree: while stepping, the
    /// steps run and the steps still owed together stay within the clock's
    /// cap, and every frame stays within it.
    pub open spec fn wf_with(&self, clock: FixedStepClock) -> bool {
        &&& clock.wf()
        &&& self.steps_view() <= clock.substep_cap()
        &&& self.stage_view() == FrameStage::Stepping ==> self.steps_view() >= 1 && self.steps_view()
            + clock.owed_steps() <= clock.substep_cap()
    }

    /// Starts a frame: first adopts `adopted_step` as the clock's step if it
    /// is given (a zero step is ignored), then banks the frame's `delta`, then
    /// draws the first fixed step if one is owed, else goes straight to the
    /// update.
    ///
    /// The step is adopted before the time is banked, so time banked under a
    /// longer step is capped to `max_substeps` of the new one before any step
    /// is drawn, and the frame never runs a longer catch-up burst.
    pub fn begin(clock: &mut FixedStepClock, adopted_step: Option<u64>, delta: u64) -> (started: (Frame, FrameAction))
        requires
            old(clock).wf(),
            old(clock).tick() < u64::MAX,
        ensures
            ({
                let step = step_after(*old(clock), adopted_step);
                let fed = banked_after(*old(clock), adopted_step, delta);
                &&& final(clock).step() == step
                &&& started.1 == if fed >= step {
                    FrameAction::FixedUpdate
                } else {
                    FrameAction::Update
                }
                &&& fed >= step ==> final(clock).banked() == fed - step && final(clock).tick() == old(clock).tick() + 1
                &&& fed < step ==> final(clock).banked() == fed && final(clock).tick() == old(clock).tick()
            }),
            started.0.stage_view() == if started.1 == FrameAction::FixedUpdate {
                FrameStage::Stepping
            } else {
                FrameStage::Updating
            },
            started.0.steps_view() == if started.1 == FrameAction::FixedUpdate {
                1nat
            } else {
                0nat
            },
            final(clock).substep_cap() == old(clock).substep_cap(),
            final(clock).elapsed() == if old(clock).elapsed() + delta > u64::MAX {
                u64::MAX as int
            } else {
                old(clock).elapsed() + delta
            },
            started.0.wf_with(*final(clock)),
    {
        if let Some(step) = adopted_step {
            clock.set_step(step);
        }
        clock.accumulate(delta);
        proof {
            crate::clock::law_catch_up_is_bounded(*clock);
        }
        if clock.next_fixed_step() {
            (Frame { stage: FrameStage::Stepping, fixed_steps: 1 }, FrameAction::FixedUpdate)
        } else {
            (Frame { stage: FrameStage::Updating, fixed_steps: 0 }, FrameAction::Update)
        }
    }

    /// A fixed update finished. A failure ends the run, and a request to stop
    /// ends it too; otherwise the next owed step runs, or, once none is owed,
    /// the per-frame update.
    pub fn after_fixed_update(&mut self, clock: &mut FixedStepClock, failed: bool, exit_requested: bool) -> (action:
        FrameAction)
        requires
            old(self).stage_view() == FrameStage::Stepping,
            old(self).wf_with(*old(clock)),
            old(clock).tick() < u64::MAX,
        ensures
            action == if failed {
                FrameAction::Fatal
            } else if exit_requested {
                FrameAction::Exit
            } else if old(clock).owed_steps() > 0 {
                FrameAction::FixedUpdate
            } else {
                FrameAction::Update
            },
            final(self).stage_view() == match action {
                FrameAction::FixedUpdate => FrameStage::Stepping,
                FrameAction::Update => FrameStage::Updating,
                _ => FrameStage::Over,
            },
            final(self).steps_view() == if action == FrameAction::FixedUpdate {
                old(self).steps_view() + 1
            } else {
                old(self).steps_view()
            },
            action == FrameAction::FixedUpdate ==> final(clock).banked() == old(clock).banked() - old(clock).step()
                && final(clock).tick() == old(clock).tick() + 1,
            action != FrameAction::FixedUpdate ==> final(clock).banked() == old(clock).banked() && final(clock).tick()
                == old(clock).tick(),
            final(clock).step() == old(clock).step(),
            final(clock).substep_cap() == old(clock).substep_cap(),
            final(clock).elapsed() == old(clock).elapsed(),
            final(self).wf_with(*final(clock)),
    {
        if failed {
            self.stage = FrameStage::Over;
            FrameAction::Fatal
        } else if exit_requested {
            self.stage = FrameStage::Over;
            FrameAction::Exit
        } else if clock.next_fixed_step() {
            self.fixed_steps = self.fixed_steps + 1;
            FrameAction::FixedUpdate
        } else {
            self.stage = FrameStage::Updating;
            FrameAction::Update
        }
    }

    /// The per-frame update finished: a request to stop ends the run before
    /// anything is rendered; otherwise the frame is rendered.
    pub fn after_update(&mut self, exit_requested: bool) -> (action: FrameAction)
        requires
            old(self).stage_view() == FrameStage::Updating,
        ensures
            action == if exit_requested {
                FrameAction::Exit
            } else {
                FrameAction::Render
            },
            final(self).stage_view() == if exit_requested {
                FrameStage::Over
            } else {
                FrameStage::Rendering
            },
            final(self).steps_view() == old(self).steps_view(),
    {
        if exit_requested {
            self.stage = FrameStage::Over;
            FrameAction::Exit
        } else {
            self.stage = FrameStage::Rendering;
            FrameAction::Render
        }
    }

    /// Rendering finished with `outcome`: the frame ends, after a resize if
    /// the surface needs one, unless the renderer failed, which ends the run.
    pub fn after_render(&mut self, outcome: FrameOutcome) -> (action: FrameAction)
        requires
            old(self).stage_view() == FrameStage::Rendering,
        ensures
            action == match outcome {
                FrameOutcome::Continue => FrameAction::EndFrame { resize: false },
                FrameOutcome::Resize => FrameAction::EndFrame { resize: true },
                FrameOutcome::Fatal => FrameAction::Fatal,
            },
            final(self).stage_view() == FrameStage::Over,
            final(self).steps_view() == old(self).steps_view(),
    {
        self.stage = FrameStage::Over;
        match outcome {
            FrameOutcome::Continue => FrameAction::EndFrame { resize: false },
            FrameOutcome::Resize => FrameAction::EndFrame { resize: true },
            FrameOutcome::Fatal => FrameAction::Fatal,
        }
    }

    /// How far the frame has got.
    pub fn stage(&self) -> (stage: FrameStage)
        ensures
            stage == self.stage_view(),
    {
        self.stage
    }

    /// Fixed updates the frame has run or is running.
    pub fn fixed_steps(&self) -> (steps: u32)
        ensures
            steps == self.steps_view(),
    {
        self.fixed_steps
    }
}

/// However long the frame before it stalled, a frame runs at most
/// `max_substeps` fixed updates.
pub proof fn law_a_frame_runs_at_most_max_substeps(frame: Frame, clock: FixedStepClock)
    requires
        frame.wf_with(clock),
    ensures
        frame.steps_view() <= clock.substep_cap(),
{
}

} // verus!
