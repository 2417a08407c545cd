//! Per-handle decode state shared by the native and web audio backends.

use vstd::prelude::*;

use crate::audio::{ClipState, SoundId};

verus! {

/// What a backend knows about one handle.
pub enum Slot<T> {
    Pending,
    Ready(T),
    Failed,
}

/// The loading state of slot `index` in `slots`: a handle past the end was
/// never passed to the backend and is `Failed`.
pub open spec fn state_at<T>(slots: Seq<Slot<T>>, index: int) -> ClipState {
    if 0 <= index < slots.len() {
        match slots[index] {
            Slot::Pending => ClipState::Pending,
            Slot::Ready(_) => ClipState::Ready,
            Slot::Failed => ClipState::Failed,
        }
    } else {
        ClipState::Failed
    }
}

/// The decoded clip held in slot `index`, if it is ready.
pub open spec fn clip_at<T>(slots: Seq<Slot<T>>, index: int) -> Option<T> {
    if 0 <= index < slots.len() {
        match slots[index] {
            Slot::Ready(clip) => Some(clip),
            _ => None,
        }
    } else {
        None
    }
}

/// `slots` with slot `index` replaced by `slot`, every slot between the old
/// end and `index` filled with `Failed`.
pub open spec fn with_slot<T>(slots: Seq<Slot<T>>, index: int, slot: Slot<T>) -> Seq<Slot<T>>
    recommends
        0 <= index,
{
    if index < slots.len() {
        slots.update(index, slot)
    } else {
        slots + Seq::new((index - slots.len()) as nat, |i: int| Slot::Failed) + seq![slot]
    }
}

/// One call a backend makes on a [`ClipRegistry`].
pub enum RegistryCall<T> {
    /// `begin(id)`: decoding of the clip under the index started.
    Begin(u32),
    /// `finish(id, clip)`: decoding ended, with the clip or `None`.
    Finish(u32, Option<T>),
}

/// The slot a call leaves under the index it names.
pub open spec fn slot_of<T>(call: RegistryCall<T>) -> Slot<T> {
    match call {
        RegistryCall::Begin(_) => Slot::Pending,
        RegistryCall::Finish(_, Some(clip)) => Slot::Ready(clip),
        RegistryCall::Finish(_, None) => Slot::Failed,
    }
}

/// The index a call names.
pub open spec fn index_of<T>(call: RegistryCall<T>) -> int {
    match call {
        RegistryCall::Begin(id) => id as int,
        RegistryCall::Finish(id, _) => id as int,
    }
}

/// The slots of a registry made with `new` and then given `calls`, in
/// order: what [`ClipRegistry::begin`] and [`ClipRegistry::finish`] leave.
pub open spec fn after_calls<T>(calls: Seq<RegistryCall<T>>) -> Seq<Slot<T>>
    decreases calls.len(),
{
    if calls.len() == 0 {
        Seq::empty()
    } else {
        with_slot(after_calls(calls.drop_last()), index_of(calls.last()), slot_of(calls.last()))
    }
}

/// The slot the last of `calls` naming `index` left there, or `Failed` if
/// none named it.
pub open spec fn last_slot<T>(calls: Seq<RegistryCall<T>>, index: int) -> Slot<T>
    decreases calls.len(),
{
    if calls.len() == 0 {
        Slot::Failed
    } else if index_of(calls.last()) == index {
        slot_of(calls.last())
    } else {
        last_slot(calls.drop_last(), index)
    }
}

/// Replacing one slot changes what that index reads and nothing else.
pub proof fn lemma_with_slot_reads<T>(slots: Seq<Slot<T>>, index: int, slot: Slot<T>, j: int)
    requires
        0 <= index,
    ensures
        state_at(with_slot(slots, index, slot), j) == if j == index {
            state_at(seq![slot], 0)
        } else {
            state_at(slots, j)
        },
        clip_at(with_slot(slots, index, slot), j) == if j == index {
            clip_at(seq![slot], 0)
        } else {
            clip_at(slots, j)
        },
{
    let after = with_slot(slots, index, slot);
    if index >= slots.len() && 0 <= j < after.len() && j != index {
        if j >= slots.len() {
            assert(after[j] == Slot::<T>::Failed);
        } else {
            assert(after[j] == slots[j]);
        }
    }
}

/// Whatever calls a registry has been given, each handle reads as the last
/// call naming it left it: `Pending` after `begin`, `Ready` with the clip
/// after `finish` with one, and `Failed` after `finish` without one or when
/// no call named it, skipped-over handles included. A handle holds a clip
/// exactly when it reads `Ready`.
pub proof fn law_each_handle_reads_its_last_call<T>(calls: Seq<RegistryCall<T>>, index: int)
    ensures
        state_at(after_calls(calls), index) == state_at(seq![last_slot(calls, index)], 0),
        clip_at(after_calls(calls), index) == clip_at(seq![last_slot(calls, index)], 0),
        clip_at(after_calls(calls), index) is Some <==> state_at(after_calls(calls), index) == ClipState::Ready,
    decreases calls.len(),
{
    if calls.len() > 0 {
        law_each_handle_reads_its_last_call(calls.drop_last(), index);
        let id = index_of(calls.last());
        assert(0 <= id);
        lemma_with_slot_reads(after_calls(calls.drop_last()), id, slot_of(calls.last()), index);
    }
}

/// Every clip a backend was asked to load, indexed by [`SoundId`].
///
/// Handles are issued sequentially, but not every handle reaches a backend,
/// so a slot skipped over is `Failed`, never `Pending`.
pub struct ClipRegistry<T> {
    slots: Vec<Slot<T>>,
}

impl<T> View for ClipRegistry<T> {
    type V = Seq<Slot<T>>;

    closed spec fn view(&self) -> Seq<Slot<T>> {
        self.slots@
    }
}

impl<T> ClipRegistry<T> {
    /// An empty registry: every handle is `Failed`.
    pub fn new() -> (registry: Self)
        ensures
            registry@ == Seq::<Slot<T>>::empty(),
    {
        ClipRegistry { slots: Vec::new() }
    }

    /// Marks `id` as decoding.
    pub fn begin(&mut self, id: SoundId)
        requires
            id@ < usize::MAX,
        ensures
            final(self)@ == with_slot(old(self)@, id@ as int, Slot::Pending),
            state_at(final(self)@, id@ as int) == ClipState::Pending,
            forall|j: int| j != id@ ==> #[trigger] state_at(final(self)@, j) == state_at(old(self)@, j),
            forall|j: int| j != id@ ==> #[trigger] clip_at(final(self)@, j) == clip_at(old(self)@, j),
    {
        self.set(id, Slot::Pending);
    }

    /// Records the outcome of decoding `id`: the decoded clip, or `None` if
    /// decoding failed.
    pub fn finish(&mut self, id: SoundId, clip: Option<T>)
        requires
            id@ < usize::MAX,
        ensures
            final(self)@ == with_slot(
                old(self)@,
                id@ as int,
                match clip {
                    Some(c) => Slot::Ready(c),
                    None => Slot::Failed,
                },
            ),
            state_at(final(self)@, id@ as int) == (if clip is Some {
                ClipState::Ready
            } else {
                ClipState::Failed
            }),
            clip_at(final(self)@, id@ as int) == clip,
            forall|j: int| j != id@ ==> #[trigger] state_at(final(self)@, j) == state_at(old(self)@, j),
            forall|j: int| j != id@ ==> #[trigger] clip_at(final(self)@, j) == clip_at(old(self)@, j),
    {
        let slot = match clip {
            Some(c) => Slot::Ready(c),
            None => Slot::Failed,
        };
        self.set(id, slot);
    }

    /// The loading state of `id`.
    pub fn state(&self, id: SoundId) -> (state: ClipState)
        ensures
            state == state_at(self@, id@ as int),
    {
        let index: usize = id.index() as usize;
        if index < self.slots.len() {
            match &self.slots[index] {
                Slot::Pending => ClipState::Pending,
                Slot::Ready(..) => ClipState::Ready,
                Slot::Failed => ClipState::Failed,
            }
        } else {
            ClipState::Failed
        }
    }

    /// The decoded clip for `id`, if it is ready.
    pub fn get(&self, id: SoundId) -> (clip: Option<&T>)
        ensures
            clip_at(self@, id@ as int) matches Some(c) ==> clip == Some(&c),
            clip_at(self@, id@ as int) is None ==> clip is None,
    {
        let index: usize = id.index() as usize;
        if index < self.slots.len() {
            match &self.slots[index] {
                Slot::Ready(clip) => Some(clip),
                _ => None,
            }
        } else {
            None
        }
    }

    /// Stores `slot` under `id`, growing the registry with `Failed` slots as
    /// needed.
    pub fn set(&mut self, id: SoundId, slot: Slot<T>)
        requires
            id@ < usize::MAX,
        ensures
            final(self)@ == with_slot(old(self)@, id@ as int, slot),
            state_at(final(self)@, id@ as int) == state_at(seq![slot], 0),
            clip_at(final(self)@, id@ as int) == clip_at(seq![slot], 0),
            forall|j: int| j != id@ ==> #[trigger] state_at(final(self)@, j) == state_at(old(self)@, j),
            forall|j: int| j != id@ ==> #[trigger] clip_at(final(self)@, j) == clip_at(old(self)@, j),
    {
        let index: usize = id.index() as usize;
        let ghost old_slots = self.slots@;
        if index >= self.slots.len() {
            while self.slots.len() < index
                invariant
                    old_slots.len() <= self.slots@.len() <= index,
                    self.slots@ == old_slots + Seq::new(
                        (self.slots@.len() - old_slots.len()) as nat,
                        |i: int| Slot::<T>::Failed,
                    ),
                decreases index - self.slots@.len(),
            {
                self.slots.push(Slot::Failed);
            }
            self.slots.push(slot);
            assert(self.slots@ =~= with_slot(old_slots, index as int, slot));
        } else {
            self.slots.set(index, slot);
        }
        assert forall|j: int| j != id@ implies #[trigger] state_at(self.slots@, j) == state_at(
            old_slots,
            j,
        ) && clip_at(self.slots@, j) == clip_at(old_slots, j) by {
            if 0 <= j < old_slots.len() {
                assert(self.slots@[j] == old_slots[j]);
            } else if old_slots.len() <= j < index {
                assert(self.slots@[j] is Failed);
            }
        }
    }
}

impl<T> Default for ClipRegistry<T> {
    fn default() -> (value: Self)
        ensures
            value@ == Seq::<Slot<T>>::empty(),
    {
        Self::new()
    }
}

} // verus!
