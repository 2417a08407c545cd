//! Plays issued against a clip that was still decoding, held until it
//! resolves. Shared by every audio backend so the policy cannot drift between
//! them.
//!
//! Waiting time is counted in whole microseconds.

use vstd::prelude::*;

use crate::audio::{ClipState, SoundId};

verus! {

/// How long a play may wait on a still-decoding clip before it is dropped, so
/// a sound never fires long after the moment that triggered it (two seconds).
pub const MAX_WAIT_MICROS: u64 = 2_000_000;

/// How many sound plays may wait at once. More would release a burst of stale
/// copies the moment a slow decode resolves.
pub const MAX_WAITING_SOUNDS: usize = 32;

/// A play whose clip has finished decoding and can start. `S` carries what a
/// sound play was issued with, `M` what a music play was issued with.
#[derive(Debug, Clone, Copy, PartialEq)]
pub enum ReadyPlay<S, M> {
    Sound { clip: SoundId, params: S },
    Music { clip: SoundId, options: M },
}

impl<S, M> ReadyPlay<S, M> {
    /// The clip this play is waiting on.
    pub open spec fn clip_of(self) -> SoundId {
        match self {
            ReadyPlay::Sound { clip, .. } => clip,
            ReadyPlay::Music { clip, .. } => clip,
        }
    }

    /// The clip this play is waiting on.
    pub fn clip(&self) -> (clip: SoundId)
        ensures
            clip == self.clip_of(),
    {
        match self {
            ReadyPlay::Sound { clip, .. } => *clip,
            ReadyPlay::Music { clip, .. } => *clip,
        }
    }
}

/// A play and how long it has waited, in microseconds.
pub struct Waiting<P> {
    pub play: P,
    pub age: u64,
}

/// `age + dt`, saturating at the top of the `u64` range.
pub open spec fn aged(age: u64, dt: u64) -> u64 {
    if age + dt > u64::MAX {
        u64::MAX
    } else {
        (age + dt) as u64
    }
}

/// The fate of one waiting play whose clip was observed in `state`: what is
/// left waiting (first) and what starts now (second). A ready clip starts the
/// play, a failed one drops it, and a pending one keeps it waiting, one `dt`
/// older, until it has waited [`MAX_WAIT_MICROS`].
pub open spec fn settle<P>(waiting: Waiting<P>, state: ClipState, dt: u64) -> (Option<Waiting<P>>, Option<P>) {
    match state {
        ClipState::Ready => (None, Some(waiting.play)),
        ClipState::Failed => (None, None),
        ClipState::Pending => {
            let age = aged(waiting.age, dt);
            if age < MAX_WAIT_MICROS {
                (Some(Waiting { play: waiting.play, age }), None)
            } else {
                (None, None)
            }
        },
    }
}

/// The plays of `queue` still waiting after each was settled against the
/// matching entry of `states`, in the order they were made.
pub open spec fn kept_all<P>(queue: Seq<Waiting<P>>, states: Seq<ClipState>, dt: u64) -> Seq<Waiting<P>>
    decreases queue.len(),
{
    if queue.len() == 0 {
        seq![]
    } else {
        let before = kept_all(queue.drop_last(), states, dt);
        match settle(queue.last(), states[queue.len() - 1], dt).0 {
            Some(kept) => before.push(kept),
            None => before,
        }
    }
}

/// The plays of `queue` that start after each was settled against the
/// matching entry of `states`, in the order they were made.
pub open spec fn ready_all<P>(queue: Seq<Waiting<P>>, states: Seq<ClipState>, dt: u64) -> Seq<P>
    decreases queue.len(),
{
    if queue.len() == 0 {
        seq![]
    } else {
        let before = ready_all(queue.drop_last(), states, dt);
        match settle(queue.last(), states[queue.len() - 1], dt).1 {
            Some(ready) => before.push(ready),
            None => before,
        }
    }
}

/// The clip each play of `queue` waits on.
pub open spec fn clips_of<S, M>(queue: Seq<Waiting<ReadyPlay<S, M>>>) -> Seq<SoundId> {
    queue.map_values(|w: Waiting<ReadyPlay<S, M>>| w.play.clip_of())
}

/// Every clip waited on, the sound plays' first and the music play's last.
pub open spec fn waited_clips<S, M>(
    sounds: Seq<Waiting<ReadyPlay<S, M>>>,
    music: Option<Waiting<ReadyPlay<S, M>>>,
) -> Seq<SoundId> {
    clips_of(sounds) + match music {
        Some(m) => seq![m.play.clip_of()],
        None => Seq::empty(),
    }
}

/// `states` is what `state` answered, in order, for each clip of `clips`.
pub open spec fn observed<F: Fn(SoundId) -> ClipState>(
    state: F,
    clips: Seq<SoundId>,
    states: Seq<ClipState>,
) -> bool {
    &&& states.len() == clips.len()
    &&& forall|i: int| 0 <= i < clips.len() ==> call_ensures(state, (clips[i],), #[trigger] states[i])
}

/// Settling a queue reads only the states of its own positions.
pub proof fn lemma_settle_prefix_stable<P>(
    queue: Seq<Waiting<P>>,
    a: Seq<ClipState>,
    b: Seq<ClipState>,
    dt: u64,
)
    requires
        queue.len() <= a.len(),
        queue.len() <= b.len(),
        forall|i: int| 0 <= i < queue.len() ==> a[i] == b[i],
    ensures
        kept_all(queue, a, dt) == kept_all(queue, b, dt),
        ready_all(queue, a, dt) == ready_all(queue, b, dt),
    decreases queue.len(),
{
    if queue.len() > 0 {
        lemma_settle_prefix_stable(queue.drop_last(), a, b, dt);
    }
}

/// Settling never adds a play: what stays and what starts together number
/// at most what waited, every play left waiting was already waiting, and has
/// waited less than [`MAX_WAIT_MICROS`].
pub proof fn lemma_kept_all_in_shape<P>(queue: Seq<Waiting<P>>, states: Seq<ClipState>, dt: u64)
    ensures
        kept_all(queue, states, dt).len() + ready_all(queue, states, dt).len() <= queue.len(),
        forall|k: int|
            0 <= k < kept_all(queue, states, dt).len() ==> exists|i: int|
                0 <= i < queue.len() && #[trigger] kept_all(queue, states, dt)[k].play == queue[i].play,
        forall|k: int|
            0 <= k < kept_all(queue, states, dt).len() ==> #[trigger] kept_all(queue, states, dt)[k].age
                < MAX_WAIT_MICROS,
    decreases queue.len(),
{
    if queue.len() > 0 {
        let prev = queue.drop_last();
        lemma_kept_all_in_shape(prev, states, dt);
        let kept = kept_all(queue, states, dt);
        assert forall|k: int| 0 <= k < kept.len() implies exists|i: int|
            0 <= i < queue.len() && #[trigger] kept[k].play == queue[i].play by {
            if k < kept_all(prev, states, dt).len() {
                let i = choose|i: int| 0 <= i < prev.len() && kept_all(prev, states, dt)[k].play == prev[i].play;
                assert(queue[i] == prev[i]);
            } else {
                assert(kept[k].play == queue[queue.len() - 1].play);
            }
        }
    }
}

/// Each waiting play paired with the state observed for its clip.
pub open spec fn observed_pairs<P>(queue: Seq<Waiting<P>>, states: Seq<ClipState>) -> Seq<(Waiting<P>, ClipState)> {
    Seq::new(queue.len(), |i: int| (queue[i], states[i]))
}

/// One waiting play with its observed state, settled: a ready clip starts
/// it; a failed one drops it; a pending one keeps it, aged by `dt`, only
/// while its total wait stays under [`MAX_WAIT_MICROS`].
pub proof fn law_settling_one_play<P>(waiting: Waiting<P>, state: ClipState, dt: u64)
    ensures
        state == ClipState::Ready ==> settle(waiting, state, dt) == (None::<Waiting<P>>, Some(waiting.play)),
        state == ClipState::Failed ==> settle(waiting, state, dt) == (None::<Waiting<P>>, None::<P>),
        state == ClipState::Pending && waiting.age + dt < MAX_WAIT_MICROS ==> settle(waiting, state, dt) == (
            Some(Waiting { play: waiting.play, age: (waiting.age + dt) as u64 }),
            None::<P>,
        ),
        state == ClipState::Pending && waiting.age + dt >= MAX_WAIT_MICROS ==> settle(waiting, state, dt) == (
            None::<Waiting<P>>,
            None::<P>,
        ),
{
}

/// The plays that start when a queue is settled are exactly the plays of
/// the entries whose clip was observed ready, each once, in queue order.
pub proof fn law_ready_plays_are_the_ready_entries<P>(queue: Seq<Waiting<P>>, states: Seq<ClipState>, dt: u64)
    requires
        queue.len() <= states.len(),
    ensures
        ready_all(queue, states, dt) == observed_pairs(queue, states).filter(
            |e: (Waiting<P>, ClipState)| e.1 == ClipState::Ready,
        ).map_values(|e: (Waiting<P>, ClipState)| e.0.play),
    decreases queue.len(),
{
    reveal(Seq::filter);
    let pairs = observed_pairs(queue, states);
    let pred = |e: (Waiting<P>, ClipState)| e.1 == ClipState::Ready;
    let f = |e: (Waiting<P>, ClipState)| e.0.play;
    if queue.len() == 0 {
        assert(pairs.filter(pred) =~= Seq::<(Waiting<P>, ClipState)>::empty());
        assert(pairs.filter(pred).map_values(f) =~= Seq::<P>::empty());
    } else {
        let prev = queue.drop_last();
        law_ready_plays_are_the_ready_entries(prev, states, dt);
        assert(pairs.drop_last() =~= observed_pairs(prev, states));
        let before = observed_pairs(prev, states).filter(pred);
        let last = pairs.last();
        assert(last == (queue.last(), states[queue.len() - 1]));
        if pred(last) {
            assert(pairs.filter(pred) == before.push(last));
            assert(before.push(last).map_values(f) =~= before.map_values(f).push(f(last)));
        } else {
            assert(pairs.filter(pred) == before);
        }
    }
}

/// The plays left waiting when a queue is settled are exactly the entries
/// whose clip was observed still decoding and whose total wait, aged by
/// `dt`, stays under [`MAX_WAIT_MICROS`], each aged by `dt`, in queue order.
/// A play that has waited the limit is never kept.
pub proof fn law_kept_plays_have_aged<P>(queue: Seq<Waiting<P>>, states: Seq<ClipState>, dt: u64)
    requires
        queue.len() <= states.len(),
    ensures
        kept_all(queue, states, dt) == observed_pairs(queue, states).filter(
            |e: (Waiting<P>, ClipState)| e.1 == ClipState::Pending && e.0.age + dt < MAX_WAIT_MICROS,
        ).map_values(|e: (Waiting<P>, ClipState)| Waiting { play: e.0.play, age: (e.0.age + dt) as u64 }),
    decreases queue.len(),
{
    reveal(Seq::filter);
    let pairs = observed_pairs(queue, states);
    let pred = |e: (Waiting<P>, ClipState)| e.1 == ClipState::Pending && e.0.age + dt < MAX_WAIT_MICROS;
    let f = |e: (Waiting<P>, ClipState)| Waiting { play: e.0.play, age: (e.0.age + dt) as u64 };
    if queue.len() == 0 {
        assert(pairs.filter(pred) =~= Seq::<(Waiting<P>, ClipState)>::empty());
        assert(pairs.filter(pred).map_values(f) =~= Seq::<Waiting<P>>::empty());
    } else {
        let prev = queue.drop_last();
        law_kept_plays_have_aged(prev, states, dt);
        assert(pairs.drop_last() =~= observed_pairs(prev, states));
        let before = observed_pairs(prev, states).filter(pred);
        let last = pairs.last();
        assert(last == (queue.last(), states[queue.len() - 1]));
        law_settling_one_play(queue.last(), states[queue.len() - 1], dt);
        if pred(last) {
            assert(pairs.filter(pred) == before.push(last));
            assert(before.push(last).map_values(f) =~= before.map_values(f).push(f(last)));
        } else {
            assert(pairs.filter(pred) == before);
        }
    }
}

/// Plays waiting on their clip to decode.
///
/// At most one music play waits at a time, and a newer `wait_music` or a
/// `cancel_music` replaces or cancels it, so an older music request can never
/// start after a newer one.
pub struct PendingPlays<S, M> {
    sounds: Vec<Waiting<ReadyPlay<S, M>>>,
    music: Option<Waiting<ReadyPlay<S, M>>>,
}

impl<S, M> View for PendingPlays<S, M> {
    type V = (Seq<Waiting<ReadyPlay<S, M>>>, Option<Waiting<ReadyPlay<S, M>>>);

    closed spec fn view(&self) -> Self::V {
        (self.sounds@, self.music)
    }
}

impl<S: Copy, M: Copy> PendingPlays<S, M> {
    /// The queue is in shape: no more than [`MAX_WAITING_SOUNDS`] sound plays
    /// wait, every one of them a sound, the waiting music play is music, and
    /// no play still waiting has waited [`MAX_WAIT_MICROS`].
    pub open spec fn wf(self) -> bool {
        &&& self@.0.len() <= MAX_WAITING_SOUNDS
        &&& forall|i: int| 0 <= i < self@.0.len() ==> #[trigger] self@.0[i].play is Sound
        &&& forall|i: int| 0 <= i < self@.0.len() ==> #[trigger] self@.0[i].age < MAX_WAIT_MICROS
        &&& self@.1 matches Some(m) ==> m.play is Music && m.age < MAX_WAIT_MICROS
    }

    /// Nothing waiting.
    pub fn new() -> (pending: Self)
        ensures
            pending@.0 == Seq::<Waiting<ReadyPlay<S, M>>>::empty(),
            pending@.1 is None,
            pending.wf(),
    {
        PendingPlays { sounds: Vec::new(), music: None }
    }

    /// Holds a sound play until its clip resolves, dropping it if
    /// [`MAX_WAITING_SOUNDS`] are already waiting.
    pub fn wait_sound(&mut self, clip: SoundId, play: S)
        ensures
            old(self)@.0.len() < MAX_WAITING_SOUNDS ==> final(self)@.0 == old(self)@.0.push(
                Waiting { play: ReadyPlay::Sound { clip, params: play }, age: 0 },
            ),
            old(self)@.0.len() >= MAX_WAITING_SOUNDS ==> final(self)@.0 == old(self)@.0,
            final(self)@.1 == old(self)@.1,
            old(self).wf() ==> final(self).wf(),
    {
        if self.sounds.len() < MAX_WAITING_SOUNDS {
            self.sounds.push(Waiting { play: ReadyPlay::Sound { clip, params: play }, age: 0 });
        }
    }

    /// Holds a music play until its clip resolves, replacing any music play
    /// already waiting.
    pub fn wait_music(&mut self, clip: SoundId, play: M)
        ensures
            final(self)@.0 == old(self)@.0,
            final(self)@.1 == Some(Waiting { play: ReadyPlay::<S, M>::Music { clip, options: play }, age: 0 }),
            old(self).wf() ==> final(self).wf(),
    {
        self.music = Some(Waiting { play: ReadyPlay::Music { clip, options: play }, age: 0 });
    }

    /// Drops the waiting music play, if any.
    pub fn cancel_music(&mut self)
        ensures
            final(self)@.0 == old(self)@.0,
            final(self)@.1 is None,
            old(self).wf() ==> final(self).wf(),
    {
        self.music = None;
    }

    /// How many sound plays are waiting.
    pub fn waiting_sounds(&self) -> (count: usize)
        ensures
            count == self@.0.len(),
    {
        self.sounds.len()
    }

    /// Whether a music play is waiting.
    pub fn music_waiting(&self) -> (waiting: bool)
        ensures
            waiting == self@.1 is Some,
    {
        self.music.is_some()
    }

    /// Ages every waiting play by `dt` microseconds and removes the ones whose
    /// clip resolved or that waited too long, returning those whose clip is
    /// ready: the sound plays first, in the order they were issued, then the
    /// music play. `state` reports each clip's current [`ClipState`]; it is
    /// asked once per waiting play, sound plays first.
    pub fn take_ready<F: Fn(SoundId) -> ClipState>(&mut self, dt: u64, state: F) -> (ready: Vec<ReadyPlay<S, M>>)
        requires
            forall|id: SoundId| state.requires((id,)),
        ensures
            exists|states: Seq<ClipState>|
                {
                    let n = old(self)@.0.len();
                    &&& #[trigger] observed(
                        state,
                        waited_clips(old(self)@.0, old(self)@.1),
                        states,
                    )
                    &&& final(self)@.0 == kept_all(old(self)@.0, states, dt)
                    &&& final(self)@.1 == match old(self)@.1 {
                        Some(m) => settle(m, states[n as int], dt).0,
                        None => None,
                    }
                    &&& ready@ == ready_all(old(self)@.0, states, dt) + match old(self)@.1 {
                        Some(m) => match settle(m, states[n as int], dt).1 {
                            Some(p) => seq![p],
                            None => Seq::empty(),
                        },
                        None => Seq::empty(),
                    }
                },
            old(self).wf() ==> final(self).wf(),
    {
        let mut ready: Vec<ReadyPlay<S, M>> = Vec::new();
        let mut kept: Vec<Waiting<ReadyPlay<S, M>>> = Vec::new();
        let ghost queue = self.sounds@;
        let ghost clips = clips_of(queue);
        let ghost mut states: Seq<ClipState> = seq![];
        let n: usize = self.sounds.len();
        let mut i: usize = 0;
        while i < n
            invariant
                n == queue.len(),
                self.sounds@ == queue,
                self.music == old(self).music,
                queue == old(self)@.0,
                clips == clips_of(queue),
                0 <= i <= n,
                states.len() == i,
                forall|j: int| 0 <= j < i ==> call_ensures(state, (clips[j],), #[trigger] states[j]),
                forall|id: SoundId| state.requires((id,)),
                kept@ == kept_all(queue.take(i as int), states, dt),
                ready@ == ready_all(queue.take(i as int), states, dt),
            decreases n - i,
        {
            let clip: SoundId = self.sounds[i].play.clip();
            let observed_state: ClipState = state(clip);
            let ghost before = states;
            proof {
                states = states.push(observed_state);
                lemma_settle_prefix_stable(queue.take(i as int), before, states, dt);
                assert(queue.take(i + 1).drop_last() =~= queue.take(i as int));
            }
            let play: ReadyPlay<S, M> = self.sounds[i].play;
            let age: u64 = self.sounds[i].age;
            match observed_state {
                ClipState::Ready => {
                    ready.push(play);
                },
                ClipState::Failed => {},
                ClipState::Pending => {
                    let aged_now: u64 = age.saturating_add(dt);
                    if aged_now < MAX_WAIT_MICROS {
                        kept.push(Waiting { play, age: aged_now });
                    }
                },
            }
            i = i + 1;
        }
        proof {
            assert(queue.take(n as int) =~= queue);
        }
        self.sounds = kept;
        let ghost sound_states = states;
        match &self.music {
            Some(waiting) => {
                let clip: SoundId = waiting.play.clip();
                let observed_state: ClipState = state(clip);
                proof {
                    states = states.push(observed_state);
                    lemma_settle_prefix_stable(queue, sound_states, states, dt);
                }
                let play: ReadyPlay<S, M> = waiting.play;
                let age: u64 = waiting.age;
                match observed_state {
                    ClipState::Ready => {
                        ready.push(play);
                        self.music = None;
                    },
                    ClipState::Failed => {
                        self.music = None;
                    },
                    ClipState::Pending => {
                        let aged_now: u64 = age.saturating_add(dt);
                        if aged_now < MAX_WAIT_MICROS {
                            self.music = Some(Waiting { play, age: aged_now });
                        } else {
                            self.music = None;
                        }
                    },
                }
            },
            None => {},
        }
        proof {
            let all_clips = waited_clips(old(self)@.0, old(self)@.1);
            assert forall|j: int| 0 <= j < all_clips.len() implies call_ensures(
                state,
                (all_clips[j],),
                #[trigger] states[j],
            ) by {
                if j < n {
                    assert(all_clips[j] == clips[j]);
                }
            }
            assert(observed(state, all_clips, states));
            assert(ready@ =~= ready_all(old(self)@.0, states, dt) + match old(self)@.1 {
                Some(m) => match settle(m, states[n as int], dt).1 {
                    Some(p) => seq![p],
                    None => Seq::empty(),
                },
                None => Seq::empty(),
            });
            lemma_kept_all_in_shape(old(self)@.0, states, dt);
        }
        ready
    }
}

impl<S: Copy, M: Copy> Default for PendingPlays<S, M> {
    fn default() -> (value: Self)
        ensures
            value@.0 == Seq::<Waiting<ReadyPlay<S, M>>>::empty(),
            value@.1 is None,
            value.wf(),
    {
        Self::new()
    }
}

} // verus!
