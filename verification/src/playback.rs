//! The play policy every audio backend shares: which plays start at once,
//! which wait for their clip to finish decoding, and which are dropped.
//!
//! A backend owns one [`ClipPlayback`], asks it where each play goes, and
//! itself only starts the plays it is told to start.

use vstd::prelude::*;

use crate::audio::{ClipState, SoundId};
use crate::pending::{
    PendingPlays, ReadyPlay, Waiting, kept_all, observed, ready_all, settle, waited_clips,
};
use crate::registry::{ClipRegistry, Slot, clip_at, state_at, with_slot};

verus! {

/// Where a play goes.
#[derive(Debug, Clone, Copy, PartialEq, Eq, Structural)]
pub enum Route {
    /// The clip is decoded: start the play now.
    Start,
    /// The clip is still decoding: the play waits for it.
    Wait,
    /// The clip failed to decode, or was never loaded: the play is dropped.
    Drop,
}

/// The route a play takes on a clip in `state`.
pub open spec fn route_for(state: ClipState) -> Route {
    match state {
        ClipState::Ready => Route::Start,
        ClipState::Pending => Route::Wait,
        ClipState::Failed => Route::Drop,
    }
}

/// The decode state of every clip a backend was asked to load, and the plays
/// waiting on clips still decoding.
pub struct ClipPlayback<T, S, M> {
    clips: ClipRegistry<T>,
    pending: PendingPlays<S, M>,
}

impl<T, S: Copy, M: Copy> ClipPlayback<T, S, M> {
    /// The decode state of every handle.
    pub closed spec fn clips_view(&self) -> Seq<Slot<T>> {
        self.clips@
    }

    /// The waiting plays: sound plays, then the music play.
    pub closed spec fn pending_view(&self) -> (Seq<Waiting<ReadyPlay<S, M>>>, Option<Waiting<ReadyPlay<S, M>>>) {
        self.pending@
    }

    /// The waiting plays are in shape.
    pub closed spec fn wf(&self) -> bool {
        self.pending.wf()
    }

    /// Nothing loaded, nothing waiting.
    pub fn new() -> (playback: Self)
        ensures
            playback.clips_view() == Seq::<Slot<T>>::empty(),
            playback.pending_view().0 == Seq::<Waiting<ReadyPlay<S, M>>>::empty(),
            playback.pending_view().1 is None,
            playback.wf(),
    {
        ClipPlayback { clips: ClipRegistry::new(), pending: PendingPlays::new() }
    }

    /// The decode state of every handle.
    pub fn clips(&self) -> (clips: &ClipRegistry<T>)
        ensures
            clips@ == self.clips_view(),
    {
        &self.clips
    }

    /// The loading state of `id`.
    pub fn clip_state(&self, id: SoundId) -> (state: ClipState)
        ensures
            state == state_at(self.clips_view(), id@ as int),
    {
        self.clips.state(id)
    }

    /// The decoded clip for `id`, if it is ready.
    pub fn clip(&self, id: SoundId) -> (clip: Option<&T>)
        ensures
            clip_at(self.clips_view(), id@ as int) matches Some(c) ==> clip == Some(&c),
            clip_at(self.clips_view(), id@ as int) is None ==> clip is None,
    {
        self.clips.get(id)
    }

    /// The bytes of `id` went to the decoder: the clip is pending.
    pub fn load_clip(&mut self, id: SoundId)
        requires
            id@ < usize::MAX,
        ensures
            final(self).clips_view() == with_slot(old(self).clips_view(), id@ as int, Slot::Pending),
            final(self).pending_view() == old(self).pending_view(),
            old(self).wf() ==> final(self).wf(),
    {
        self.clips.begin(id);
    }

    /// Decoding `id` finished: with the clip, or `None` if it failed.
    pub fn decode_finished(&mut self, id: SoundId, clip: Option<T>)
        requires
            id@ < usize::MAX,
        ensures
            final(self).clips_view() == with_slot(
                old(self).clips_view(),
                id@ as int,
                match clip {
                    Some(c) => Slot::Ready(c),
                    None => Slot::Failed,
                },
            ),
            final(self).pending_view() == old(self).pending_view(),
            old(self).wf() ==> final(self).wf(),
    {
        self.clips.finish(id, clip);
    }

    /// Routes a sound play: it starts if its clip is decoded, waits if the
    /// clip is still decoding, and is dropped otherwise.
    pub fn play_sound(&mut self, clip: SoundId, params: S) -> (route: Route)
        ensures
            route == route_for(state_at(old(self).clips_view(), clip@ as int)),
            final(self).clips_view() == old(self).clips_view(),
            route == Route::Wait && old(self).pending_view().0.len() < crate::pending::MAX_WAITING_SOUNDS ==> final(self).pending_view().0
                == old(self).pending_view().0.push(Waiting { play: ReadyPlay::Sound { clip, params }, age: 0 }),
            route != Route::Wait || old(self).pending_view().0.len() >= crate::pending::MAX_WAITING_SOUNDS ==> final(self).pending_view().0
                == old(self).pending_view().0,
            final(self).pending_view().1 == old(self).pending_view().1,
            old(self).wf() ==> final(self).wf(),
    {
        match self.clips.state(clip) {
            ClipState::Ready => Route::Start,
            ClipState::Pending => {
                self.pending.wait_sound(clip, params);
                Route::Wait
            },
            ClipState::Failed => Route::Drop,
        }
    }

    /// Routes a music play as [`play_sound`](Self::play_sound) does, after
    /// cancelling any music play still waiting, so an older request can never
    /// start after a newer one.
    pub fn play_music(&mut self, clip: SoundId, options: M) -> (route: Route)
        ensures
            route == route_for(state_at(old(self).clips_view(), clip@ as int)),
            final(self).clips_view() == old(self).clips_view(),
            final(self).pending_view().0 == old(self).pending_view().0,
            final(self).pending_view().1 == if route == Route::Wait {
                Some(Waiting { play: ReadyPlay::<S, M>::Music { clip, options }, age: 0 })
            } else {
                None
            },
            old(self).wf() ==> final(self).wf(),
    {
        self.pending.cancel_music();
        match self.clips.state(clip) {
            ClipState::Ready => Route::Start,
            ClipState::Pending => {
                self.pending.wait_music(clip, options);
                Route::Wait
            },
            ClipState::Failed => Route::Drop,
        }
    }

    /// Music is stopping: the music play still waiting, if any, never starts.
    pub fn stop_music(&mut self)
        ensures
            final(self).clips_view() == old(self).clips_view(),
            final(self).pending_view().0 == old(self).pending_view().0,
            final(self).pending_view().1 is None,
            old(self).wf() ==> final(self).wf(),
    {
        self.pending.cancel_music();
    }

    /// Ages the waiting plays by `dt` microseconds and takes those whose clip
    /// is now decoded, sound plays first, in the order they were made. Plays
    /// whose clip failed, or that waited too long, are dropped.
    pub fn take_ready(&mut self, dt: u64) -> (ready: Vec<ReadyPlay<S, M>>)
        ensures
            final(self).clips_view() == old(self).clips_view(),
            ({
                let states = waited_clips(old(self).pending_view().0, old(self).pending_view().1).map_values(
                    |id: SoundId| state_at(old(self).clips_view(), id@ as int),
                );
                let n = old(self).pending_view().0.len();
                &&& final(self).pending_view().0 == kept_all(old(self).pending_view().0, states, dt)
                &&& final(self).pending_view().1 == match old(self).pending_view().1 {
                    Some(m) => settle(m, states[n as int], dt).0,
                    None => None,
                }
                &&& ready@ == ready_all(old(self).pending_view().0, states, dt) + match old(self).pending_view().1 {
                    Some(m) => match settle(m, states[n as int], dt).1 {
                        Some(p) => seq![p],
                        None => Seq::empty(),
                    },
                    None => Seq::empty(),
                }
            }),
            old(self).wf() ==> final(self).wf(),
    {
        let clips: &ClipRegistry<T> = &self.clips;
        let ghost slots = clips@;
        let state = |id: SoundId| -> (s: ClipState)
            ensures
                s == state_at(clips@, id@ as int),
            { clips.state(id) };
        let ready = self.pending.take_ready(dt, state);
        proof {
            let clips_waited = waited_clips(old(self).pending@.0, old(self).pending@.1);
            let expected = clips_waited.map_values(|id: SoundId| state_at(slots, id@ as int));
            let states = choose|states: Seq<ClipState>| {
                let n = old(self).pending@.0.len();
                &&& #[trigger] observed(state, clips_waited, states)
                &&& self.pending@.0 == kept_all(old(self).pending@.0, states, dt)
                &&& self.pending@.1 == match old(self).pending@.1 {
                    Some(m) => settle(m, states[n as int], dt).0,
                    None => None,
                }
                &&& ready@ == ready_all(old(self).pending@.0, states, dt) + match old(self).pending@.1 {
                    Some(m) => match settle(m, states[n as int], dt).1 {
                        Some(p) => seq![p],
                        None => Seq::empty(),
                    },
                    None => Seq::empty(),
                }
            };
            assert(states =~= expected);
        }
        ready
    }
}

} // verus!
