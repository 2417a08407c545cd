//! The fixed-step clock behind `on_fixed_update`, and the window of recent
//! frame times behind the smoothed frame rate, both in whole nanoseconds.
//!
//! Real time is banked as frames go by and drawn one fixed step at a time.
//! The bank never holds more than `max_substeps` steps, so however long a
//! frame stalls, the frame after it runs a bounded catch-up burst.

use vstd::prelude::*;

verus! {

/// Nanoseconds in one second.
pub const NANOS_PER_SECOND: u64 = 1_000_000_000;

/// One fixed step at the default rate of 60 Hz: a sixtieth of a second,
/// rounded down to whole nanoseconds so that a sixtieth of a second of real
/// time always pays for a full step.
pub const DEFAULT_STEP_NANOS: u64 = 16_666_666;

/// Fixed steps run per frame at most unless a game sets its own bound.
pub const DEFAULT_MAX_SUBSTEPS: u32 = 8;

/// The fixed-step accumulator.
#[derive(Debug)]
pub struct FixedStepClock {
    step: u64,
    accumulator: u64,
    max_substeps: u32,
    tick: u64,
    elapsed: u64,
}

impl FixedStepClock {
    /// The length of one fixed step.
    pub closed spec fn step(&self) -> u64 {
        self.step
    }

    /// Real time banked and not yet drawn as fixed steps.
    pub closed spec fn banked(&self) -> u64 {
        self.accumulator
    }

    /// The most fixed steps the bank may hold.
    pub closed spec fn substep_cap(&self) -> u32 {
        self.max_substeps
    }

    /// Fixed steps drawn since the clock was made.
    pub closed spec fn tick(&self) -> u64 {
        self.tick
    }

    /// Real time fed to the clock since it was made, saturating.
    pub closed spec fn elapsed(&self) -> u64 {
        self.elapsed
    }

    /// The most real time the bank may hold.
    pub open spec fn ceiling(&self) -> int {
        self.step() * self.substep_cap()
    }

    /// Whole fixed steps the bank pays for.
    pub open spec fn owed_steps(&self) -> int {
        self.banked() as int / self.step() as int
    }

    /// A step is at least a nanosecond, at least one step may run per frame,
    /// and the bank holds no more than that many steps.
    pub open spec fn wf(&self) -> bool {
        &&& self.step() >= 1
        &&& self.substep_cap() >= 1
        &&& self.banked() <= self.ceiling()
    }

    /// `banked` capped at `steps` steps of `step` each.
    pub open spec fn capped(banked: int, step: int, steps: int) -> int {
        if banked <= step * steps {
            banked
        } else {
            step * steps
        }
    }

    /// A 60 Hz clock with nothing banked, no step drawn and no time fed.
    pub fn new() -> (clock: Self)
        ensures
            clock.step() == DEFAULT_STEP_NANOS,
            clock.banked() == 0,
            clock.substep_cap() == DEFAULT_MAX_SUBSTEPS,
            clock.tick() == 0,
            clock.elapsed() == 0,
            clock.wf(),
    {
        FixedStepClock {
            step: DEFAULT_STEP_NANOS,
            accumulator: 0,
            max_substeps: DEFAULT_MAX_SUBSTEPS,
            tick: 0,
            elapsed: 0,
        }
    }

    /// `banked` capped at `steps` steps of `step`, computed without overflow.
    fn cap_bank(banked: u64, step: u64, steps: u32) -> (capped: u64)
        ensures
            capped == Self::capped(banked as int, step as int, steps as int),
    {
        match step.checked_mul(steps as u64) {
            Some(ceiling) => if banked <= ceiling {
                banked
            } else {
                ceiling
            },
            None => banked,
        }
    }

    /// Sets the length of one fixed step. A step of zero is ignored and the
    /// clock is left as it was. A shorter step caps the bank again, so time
    /// banked against a longer step never pays for more than `max_substeps`
    /// of the new one.
    pub fn set_step(&mut self, step: u64) -> (applied: bool)
        requires
            old(self).wf(),
        ensures
            applied == (step > 0),
            applied ==> final(self).step() == step,
            applied ==> final(self).banked() == Self::capped(
                old(self).banked() as int,
                step as int,
                old(self).substep_cap() as int,
            ),
            !applied ==> final(self).step() == old(self).step() && final(self).banked() == old(self).banked(),
            final(self).substep_cap() == old(self).substep_cap(),
            final(self).tick() == old(self).tick(),
            final(self).elapsed() == old(self).elapsed(),
            final(self).wf(),
    {
        if step == 0 {
            return false;
        }
        self.step = step;
        self.accumulator = Self::cap_bank(self.accumulator, step, self.max_substeps);
        true
    }

    /// Bounds the fixed steps run per frame to `max`, or to one if `max` is
    /// zero, and caps the bank again to match.
    pub fn set_max_substeps(&mut self, max: u32)
        requires
            old(self).wf(),
        ensures
            final(self).substep_cap() == if max == 0 {
                1
            } else {
                max
            },
            final(self).banked() == Self::capped(
                old(self).banked() as int,
                old(self).step() as int,
                final(self).substep_cap() as int,
            ),
            final(self).step() == old(self).step(),
            final(self).tick() == old(self).tick(),
            final(self).elapsed() == old(self).elapsed(),
            final(self).wf(),
    {
        let max: u32 = if max == 0 {
            1
        } else {
            max
        };
        self.max_substeps = max;
        self.accumulator = Self::cap_bank(self.accumulator, self.step, max);
    }

    /// Feeds one frame's real time. It counts whole toward
    /// [`elapsed_time`](Self::elapsed_time), and is banked up to the cap
    /// (and, where the cap is beyond a `u64`, up to `u64::MAX`).
    pub fn accumulate(&mut self, delta: u64)
        requires
            old(self).wf(),
        ensures
            final(self).elapsed() == if old(self).elapsed() + delta > u64::MAX {
                u64::MAX as int
            } else {
                old(self).elapsed() + delta
            },
            final(self).banked() == Self::capped(
                if old(self).banked() + delta > u64::MAX {
                    u64::MAX as int
                } else {
                    old(self).banked() + delta
                },
                old(self).step() as int,
                old(self).substep_cap() as int,
            ),
            final(self).step() == old(self).step(),
            final(self).substep_cap() == old(self).substep_cap(),
            final(self).tick() == old(self).tick(),
            final(self).wf(),
    {
        self.elapsed = self.elapsed.saturating_add(delta);
        let room: u64 = u64::MAX - self.accumulator;
        let banked: u64 = if delta <= room {
            self.accumulator + delta
        } else {
            u64::MAX
        };
        let capped: u64 = Self::cap_bank(banked, self.step, self.max_substeps);
        self.accumulator = capped;
    }

    /// Draws one fixed step from the bank if it pays for one, counting it,
    /// and says whether it did.
    pub fn next_fixed_step(&mut self) -> (stepped: bool)
        requires
            old(self).wf(),
            old(self).tick() < u64::MAX,
        ensures
            stepped == (old(self).banked() >= old(self).step()),
            stepped == (old(self).owed_steps() > 0),
            stepped ==> final(self).banked() == old(self).banked() - old(self).step(),
            stepped ==> final(self).tick() == old(self).tick() + 1,
            stepped ==> final(self).owed_steps() == old(self).owed_steps() - 1,
            !stepped ==> final(self).banked() == old(self).banked() && final(self).tick() == old(self).tick(),
            final(self).step() == old(self).step(),
            final(self).substep_cap() == old(self).substep_cap(),
            final(self).elapsed() == old(self).elapsed(),
            final(self).wf(),
    {
        proof {
            lemma_owed_steps_of(self.accumulator as int, self.step as int);
        }
        if self.accumulator >= self.step {
            self.accumulator = self.accumulator - self.step;
            self.tick = self.tick + 1;
            proof {
                vstd::arithmetic::div_mod::lemma_div_minus_one(old(self).accumulator as int, self.step as int);
            }
            true
        } else {
            false
        }
    }

    /// The length of one fixed step, the `dt` of every `on_fixed_update`.
    pub fn fixed_delta(&self) -> (step: u64)
        ensures
            step == self.step(),
    {
        self.step
    }

    /// Fixed steps drawn since the clock was made.
    pub fn fixed_tick(&self) -> (tick: u64)
        ensures
            tick == self.tick(),
    {
        self.tick
    }

    /// Real time fed to the clock since it was made.
    pub fn elapsed_time(&self) -> (elapsed: u64)
        ensures
            elapsed == self.elapsed(),
    {
        self.elapsed
    }

    /// Real time banked toward the next fixed step.
    pub fn banked_time(&self) -> (banked: u64)
        ensures
            banked == self.banked(),
    {
        self.accumulator
    }

    /// The most fixed steps one frame runs.
    pub fn max_substeps(&self) -> (max: u32)
        ensures
            max == self.substep_cap(),
    {
        self.max_substeps
    }
}

/// A bank pays for a step exactly when it holds one step's worth of time.
proof fn lemma_owed_steps_of(banked: int, step: int)
    requires
        0 <= banked,
        1 <= step,
    ensures
        (banked / step > 0) == (banked >= step),
{
    if banked >= step {
        vstd::arithmetic::div_mod::lemma_div_is_ordered(step, banked, step);
        vstd::arithmetic::div_mod::lemma_div_by_multiple(1, step);
    } else {
        vstd::arithmetic::div_mod::lemma_basic_div(banked, step);
    }
}

/// However much real time a clock has been fed, and whatever its step and
/// its cap were changed to on the way, it owes at most `max_substeps` fixed
/// steps: one frame never runs a longer catch-up burst.
pub proof fn law_catch_up_is_bounded(clock: FixedStepClock)
    requires
        clock.wf(),
    ensures
        clock.owed_steps() <= clock.substep_cap(),
{
    vstd::arithmetic::div_mod::lemma_multiply_divide_le(
        clock.banked() as int,
        clock.step() as int,
        clock.substep_cap() as int,
    );
}

/// Frame times kept for the smoothed frame rate.
pub const FPS_WINDOW: usize = 60;

/// The sum of `times`.
pub open spec fn total(times: Seq<u64>) -> int
    decreases times.len(),
{
    if times.len() == 0 {
        0
    } else {
        total(times.drop_last()) + times.last()
    }
}

/// `recent` with `time` kept as the newest, the oldest dropped once
/// [`FPS_WINDOW`] are kept.
pub open spec fn pushed(recent: Seq<u64>, time: u64) -> Seq<u64> {
    if recent.len() < FPS_WINDOW {
        recent.push(time)
    } else {
        recent.drop_first().push(time)
    }
}

/// The last [`FPS_WINDOW`] entries of `history`, or all of it if it is
/// shorter.
pub open spec fn latest(history: Seq<u64>) -> Seq<u64> {
    if history.len() <= FPS_WINDOW {
        history
    } else {
        history.subrange(history.len() - FPS_WINDOW, history.len() as int)
    }
}

/// Pushing a frame time onto the window of a history gives the window of the
/// history with that frame time appended: the window is always the latest
/// [`FPS_WINDOW`] frames, however many came before.
pub proof fn law_window_holds_the_latest_frames(history: Seq<u64>, time: u64)
    ensures
        pushed(latest(history), time) == latest(history.push(time)),
{
    let n: int = history.len() as int;
    if n < FPS_WINDOW {
    } else if n == FPS_WINDOW {
        assert(history.drop_first().push(time) =~= history.push(time).subrange(n + 1 - FPS_WINDOW, n + 1));
    } else {
        assert(history.subrange(n - FPS_WINDOW, n).drop_first().push(time) =~= history.push(time).subrange(
            n + 1 - FPS_WINDOW,
            n + 1,
        ));
    }
}

/// The last [`FPS_WINDOW`] frame times, in a ring that overwrites the oldest.
#[derive(Debug)]
pub struct FrameTimes {
    times: Vec<u64>,
    next: usize,
    filled: usize,
}

impl FrameTimes {
    /// The slot the oldest kept frame time sits in.
    closed spec fn start(&self) -> int {
        (self.next + FPS_WINDOW - self.filled) % (FPS_WINDOW as int)
    }

    /// The frame times kept, oldest first.
    pub closed spec fn recent(&self) -> Seq<u64> {
        Seq::new(self.filled as nat, |i: int| self.times@[(self.start() + i) % (FPS_WINDOW as int)])
    }

    /// The ring has its full length, its cursor is inside it, and until it
    /// fills the cursor is the count.
    pub closed spec fn wf(&self) -> bool {
        &&& self.times@.len() == FPS_WINDOW
        &&& self.next < FPS_WINDOW
        &&& self.filled <= FPS_WINDOW
        &&& self.filled < FPS_WINDOW ==> self.next == self.filled
    }

    /// No frame time kept.
    pub fn new() -> (window: Self)
        ensures
            window.recent() == Seq::<u64>::empty(),
            window.recent().len() == 0,
            window.wf(),
    {
        let window = FrameTimes { times: vec![0u64; FPS_WINDOW], next: 0, filled: 0 };
        assert(window.recent() =~= Seq::<u64>::empty());
        window
    }

    /// Keeps `time` as the newest frame time, dropping the oldest once
    /// [`FPS_WINDOW`] are kept.
    pub fn push(&mut self, time: u64)
        requires
            old(self).wf(),
        ensures
            final(self).wf(),
            final(self).recent() == pushed(old(self).recent(), time),
            final(self).recent().len() <= FPS_WINDOW,
    {
        let ghost before = self.recent();
        let slot: usize = self.next;
        self.times.set(slot, time);
        self.next = if slot + 1 == FPS_WINDOW {
            0
        } else {
            slot + 1
        };
        if self.filled < FPS_WINDOW {
            self.filled = self.filled + 1;
            assert(self.start() == 0);
            assert(self.recent() =~= before.push(time)) by {
                assert forall|i: int| 0 <= i < self.filled implies #[trigger] self.recent()[i] == before.push(time)[i] by {
                    assert((self.start() + i) % (FPS_WINDOW as int) == i);
                }
            }
        } else {
            assert(self.start() == self.next);
            assert(old(self).start() == slot);
            assert(self.recent() =~= before.drop_first().push(time)) by {
                assert forall|i: int| 0 <= i < FPS_WINDOW implies #[trigger] self.recent()[i] == before.drop_first().push(time)[i] by {
                    if i + 1 < FPS_WINDOW {
                        assert((self.next + i) % (FPS_WINDOW as int) == (slot + (i + 1)) % (FPS_WINDOW as int));
                        assert((self.next + i) % (FPS_WINDOW as int) != slot);
                    } else {
                        assert((self.next + i) % (FPS_WINDOW as int) == slot);
                    }
                }
            }
        }
    }

    /// How many frame times are kept.
    pub fn len(&self) -> (count: usize)
        requires
            self.wf(),
        ensures
            count == self.recent().len(),
    {
        self.filled
    }

    /// The sum of the frame times kept.
    pub fn total(&self) -> (sum: u128)
        requires
            self.wf(),
        ensures
            sum == total(self.recent()),
    {
        let start: usize = (self.next + FPS_WINDOW - self.filled) % FPS_WINDOW;
        let mut sum: u128 = 0;
        let mut i: usize = 0;
        while i < self.filled
            invariant
                self.wf(),
                start == self.start(),
                0 <= i <= self.filled,
                sum == total(self.recent().take(i as int)),
                sum <= i * u64::MAX,
            decreases self.filled - i,
        {
            let time: u64 = self.times[(start + i) % FPS_WINDOW];
            proof {
                assert(self.recent().take(i + 1).drop_last() =~= self.recent().take(i as int));
                assert(self.recent()[i as int] == time);
            }
            sum = sum + time as u128;
            i = i + 1;
        }
        proof {
            assert(self.recent().take(self.filled as int) =~= self.recent());
        }
        sum
    }
}

} // verus!
