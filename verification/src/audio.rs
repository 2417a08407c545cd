//! Audio handle and state types shared by every audio backend.

use vstd::prelude::*;

verus! {

/// An opaque handle to an audio clip the engine has been asked to load.
///
/// Issued the moment a game calls `load_sound`, before any decoding happens.
/// Only meaningful to the engine instance that issued it.
#[derive(Debug, Clone, Copy, PartialEq, Eq, Hash, Structural)]
pub struct SoundId(u32);

impl View for SoundId {
    type V = u32;

    closed spec fn view(&self) -> u32 {
        self.0
    }
}

impl SoundId {
    /// The handle numbered `index`.
    pub fn new(index: u32) -> (id: Self)
        ensures
            id@ == index,
    {
        SoundId(index)
    }

    /// The number this handle was issued with.
    pub fn index(self) -> (index: u32)
        ensures
            index == self@,
    {
        self.0
    }

    /// Two handles are the same handle exactly when their numbers agree.
    pub proof fn lemma_view_injective(a: SoundId, b: SoundId)
        ensures
            (a@ == b@) <==> (a == b),
    {
    }
}

/// A volume bus a sound is mixed through, independent of the master volume.
#[derive(Debug, Clone, Copy, PartialEq, Eq, Hash, Structural)]
pub enum AudioChannel {
    Sfx,
    Music,
}

/// Loading state of a [`SoundId`].
///
/// A clip is `Pending` from the moment its bytes reach the backend until
/// decoding resolves. A `Failed` clip plays silently forever after.
#[derive(Debug, Clone, Copy, PartialEq, Eq, Hash, Structural)]
pub enum ClipState {
    Pending,
    Ready,
    Failed,
}

} // verus!
