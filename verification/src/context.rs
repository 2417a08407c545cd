//! What a game asks of the engine during a frame, beyond drawing and sound:
//! handles for assets to load, the bytes to load them from, and requests to
//! exit, resize or change fullscreen.

use vstd::prelude::*;
use vstd::slice::slice_to_vec;

use crate::audio::SoundId;
use crate::texture::{TextureFilter, TextureId};

verus! {

/// An image the game asked to load, waiting for the runtime to hand it to the
/// renderer. The bytes are owned because the request outlives the call that
/// made it.
#[derive(Debug, Clone)]
pub struct TextureRequest {
    pub id: TextureId,
    pub bytes: Vec<u8>,
    pub filter: TextureFilter,
}

/// An audio clip the game asked to load, waiting for the runtime to hand it
/// to the audio backend.
#[derive(Debug, Clone)]
pub struct SoundRequest {
    pub id: SoundId,
    pub bytes: Vec<u8>,
}

/// A draw command queued during a frame: the clear colour `C`, the glow
/// setting `G`, or a shape `S` to draw. A frame keeps at most one clear
/// colour and one glow setting, the last set.
#[derive(Debug, Clone, PartialEq)]
pub enum DrawCommand<C, G, S> {
    ClearColor(C),
    Glow(G),
    Shape(S),
}

/// Whether `command` is a setting of the kind named: the glow if `glow`,
/// the clear colour otherwise.
pub open spec fn is_setting<C, G, S>(command: DrawCommand<C, G, S>, glow: bool) -> bool {
    if glow {
        command is Glow
    } else {
        command is ClearColor
    }
}

/// `commands` without the settings of the kind named, in order.
pub open spec fn other_than<C, G, S>(commands: Seq<DrawCommand<C, G, S>>, glow: bool) -> Seq<DrawCommand<C, G, S>>
    decreases commands.len(),
{
    if commands.len() == 0 {
        seq![]
    } else {
        let before = other_than(commands.drop_last(), glow);
        if is_setting(commands.last(), glow) {
            before
        } else {
            before.push(commands.last())
        }
    }
}

/// Dropping the glow settings removes the glow commands and nothing else,
/// and dropping the clear colours removes the clear colours and nothing
/// else: every shape, and every setting of the other kind, is kept, in order.
pub proof fn law_a_setting_replaces_only_its_own_kind<C, G, S>(commands: Seq<DrawCommand<C, G, S>>)
    ensures
        other_than(commands, true) == commands.filter(|command: DrawCommand<C, G, S>| !(command is Glow)),
        other_than(commands, false) == commands.filter(|command: DrawCommand<C, G, S>| !(command is ClearColor)),
    decreases commands.len(),
{
    reveal(Seq::filter);
    if commands.len() > 0 {
        law_a_setting_replaces_only_its_own_kind(commands.drop_last());
    }
}

/// How many settings of the kind named `commands` holds.
pub open spec fn settings_count<C, G, S>(commands: Seq<DrawCommand<C, G, S>>, glow: bool) -> nat
    decreases commands.len(),
{
    if commands.len() == 0 {
        0
    } else {
        settings_count(commands.drop_last(), glow) + if is_setting(commands.last(), glow) {
            1nat
        } else {
            0nat
        }
    }
}

/// Dropping the settings of one kind leaves none of it and every setting of
/// the other kind.
pub proof fn lemma_other_than_counts<C, G, S>(commands: Seq<DrawCommand<C, G, S>>, glow: bool)
    ensures
        settings_count(other_than(commands, glow), glow) == 0,
        settings_count(other_than(commands, glow), !glow) == settings_count(commands, !glow),
    decreases commands.len(),
{
    if commands.len() > 0 {
        let before = other_than(commands.drop_last(), glow);
        lemma_other_than_counts(commands.drop_last(), glow);
        if !is_setting(commands.last(), glow) {
            assert(before.push(commands.last()).drop_last() =~= before);
        }
    }
}

/// Removes from `commands` every setting of the kind named, keeping the
/// order of the rest.
fn drop_settings<C, G, S>(commands: &mut Vec<DrawCommand<C, G, S>>, glow: bool)
    ensures
        final(commands)@ == other_than(old(commands)@, glow),
{
    let mut queue: Vec<DrawCommand<C, G, S>> = Vec::new();
    std::mem::swap(&mut queue, commands);
    let ghost given = queue@;
    let n: usize = queue.len();
    let mut stack: Vec<DrawCommand<C, G, S>> = Vec::new();
    while queue.len() > 0
        invariant
            n == given.len(),
            queue@ == given.take(queue@.len() as int),
            stack@.len() + queue@.len() == n,
            forall|j: int| 0 <= j < stack@.len() ==> #[trigger] stack@[j] == given[n - 1 - j],
        decreases queue@.len(),
    {
        let command = queue.pop().unwrap();
        stack.push(command);
        proof {
            assert(queue@ =~= given.take(queue@.len() as int));
        }
    }
    let ghost mut i: int = 0;
    proof {
        assert(given.take(0) =~= Seq::<DrawCommand<C, G, S>>::empty());
        assert(commands@ =~= other_than(given.take(0), glow));
    }
    while stack.len() > 0
        invariant
            n == given.len(),
            0 <= i <= n,
            stack@.len() == n - i,
            forall|j: int| 0 <= j < stack@.len() ==> #[trigger] stack@[j] == given[n - 1 - j],
            commands@ == other_than(given.take(i), glow),
        decreases stack@.len(),
    {
        let command = stack.pop().unwrap();
        proof {
            assert(command == given[i]);
            assert(given.take(i + 1).drop_last() =~= given.take(i));
        }
        let setting: bool = match &command {
            DrawCommand::ClearColor(_) => !glow,
            DrawCommand::Glow(_) => glow,
            DrawCommand::Shape(_) => false,
        };
        if !setting {
            commands.push(command);
        }
        proof {
            i = i + 1;
        }
    }
    proof {
        assert(given.take(n as int) =~= given);
    }
}

/// The per-frame requests of one game context, and the handles it issues:
/// draw commands, image and sound loads, and audio commands `A`.
///
/// Handles are sequential and never reused, so the renderer and the audio
/// backend index their slots by handle directly.
pub struct Context<C = (), G = (), S = (), A = ()> {
    should_exit: bool,
    surface_width: u32,
    surface_height: u32,
    surface_size_request: Option<(u32, u32)>,
    fullscreen: bool,
    fullscreen_request: Option<bool>,
    next_texture_id: u32,
    next_sound_id: u32,
    texture_requests: Vec<TextureRequest>,
    sound_requests: Vec<SoundRequest>,
    commands: Vec<DrawCommand<C, G, S>>,
    audio_commands: Vec<A>,
}

impl<C, G, S, A> Context<C, G, S, A> {
    /// Whether the game asked to exit this frame.
    pub closed spec fn exit_view(&self) -> bool {
        self.should_exit
    }

    /// The surface size, width first.
    pub closed spec fn surface_view(&self) -> (u32, u32) {
        (self.surface_width, self.surface_height)
    }

    /// The surface size the game asked for this frame, if any.
    pub closed spec fn size_request_view(&self) -> Option<(u32, u32)> {
        self.surface_size_request
    }

    /// Whether the window is fullscreen, as far as the game knows.
    pub closed spec fn fullscreen_view(&self) -> bool {
        self.fullscreen
    }

    /// The fullscreen state the game asked for this frame, if any.
    pub closed spec fn fullscreen_request_view(&self) -> Option<bool> {
        self.fullscreen_request
    }

    /// The number the next texture handle gets.
    pub closed spec fn next_texture_view(&self) -> u32 {
        self.next_texture_id
    }

    /// The number the next sound handle gets.
    pub closed spec fn next_sound_view(&self) -> u32 {
        self.next_sound_id
    }

    /// Images queued for upload, oldest first.
    pub closed spec fn texture_requests_view(&self) -> Seq<TextureRequest> {
        self.texture_requests@
    }

    /// Clips queued for decoding, oldest first.
    pub closed spec fn sound_requests_view(&self) -> Seq<SoundRequest> {
        self.sound_requests@
    }

    /// Draw commands queued this frame, oldest first.
    pub closed spec fn commands_view(&self) -> Seq<DrawCommand<C, G, S>> {
        self.commands@
    }

    /// Audio commands queued this frame, oldest first.
    pub closed spec fn audio_view(&self) -> Seq<A> {
        self.audio_commands@
    }

    /// Every field but the texture handles and their requests is as in `other`.
    pub open spec fn same_but_textures(&self, other: &Context<C, G, S, A>) -> bool {
        &&& self.exit_view() == other.exit_view()
        &&& self.surface_view() == other.surface_view()
        &&& self.size_request_view() == other.size_request_view()
        &&& self.fullscreen_view() == other.fullscreen_view()
        &&& self.fullscreen_request_view() == other.fullscreen_request_view()
        &&& self.next_sound_view() == other.next_sound_view()
        &&& self.sound_requests_view() == other.sound_requests_view()
        &&& self.commands_view() == other.commands_view()
        &&& self.audio_view() == other.audio_view()
    }

    /// Every field but the sound handles and their requests is as in `other`.
    pub open spec fn same_but_sounds(&self, other: &Context<C, G, S, A>) -> bool {
        &&& self.exit_view() == other.exit_view()
        &&& self.surface_view() == other.surface_view()
        &&& self.size_request_view() == other.size_request_view()
        &&& self.fullscreen_view() == other.fullscreen_view()
        &&& self.fullscreen_request_view() == other.fullscreen_request_view()
        &&& self.next_texture_view() == other.next_texture_view()
        &&& self.texture_requests_view() == other.texture_requests_view()
        &&& self.commands_view() == other.commands_view()
        &&& self.audio_view() == other.audio_view()
    }

    /// A fresh context: nothing requested, no handle issued yet.
    pub fn new() -> (context: Self)
        ensures
            !context.exit_view(),
            context.surface_view() == (0u32, 0u32),
            context.size_request_view() is None,
            !context.fullscreen_view(),
            context.fullscreen_request_view() is None,
            context.next_texture_view() == 0,
            context.next_sound_view() == 0,
            context.texture_requests_view() == Seq::<TextureRequest>::empty(),
            context.sound_requests_view() == Seq::<SoundRequest>::empty(),
            context.commands_view() == Seq::<DrawCommand<C, G, S>>::empty(),
            context.audio_view() == Seq::<A>::empty(),
    {
        Context {
            should_exit: false,
            surface_width: 0,
            surface_height: 0,
            surface_size_request: None,
            fullscreen: false,
            fullscreen_request: None,
            next_texture_id: 0,
            next_sound_id: 0,
            texture_requests: Vec::new(),
            sound_requests: Vec::new(),
            commands: Vec::new(),
            audio_commands: Vec::new(),
        }
    }

    /// Requests a clean engine shutdown after the current frame.
    pub fn exit(&mut self)
        ensures
            final(self).exit_view(),
            final(self).surface_view() == old(self).surface_view(),
            final(self).size_request_view() == old(self).size_request_view(),
            final(self).fullscreen_view() == old(self).fullscreen_view(),
            final(self).fullscreen_request_view() == old(self).fullscreen_request_view(),
            final(self).next_texture_view() == old(self).next_texture_view(),
            final(self).next_sound_view() == old(self).next_sound_view(),
            final(self).texture_requests_view() == old(self).texture_requests_view(),
            final(self).sound_requests_view() == old(self).sound_requests_view(),
            final(self).commands_view() == old(self).commands_view(),
            final(self).audio_view() == old(self).audio_view(),
    {
        self.should_exit = true;
    }

    /// Whether [`exit`](Self::exit) was called this frame.
    pub fn should_exit(&self) -> (exit: bool)
        ensures
            exit == self.exit_view(),
    {
        self.should_exit
    }

    /// Records the surface dimensions. Called on resize and after start-up.
    pub fn update_state(&mut self, width: u32, height: u32)
        ensures
            final(self).surface_view() == (width, height),
            final(self).exit_view() == old(self).exit_view(),
            final(self).size_request_view() == old(self).size_request_view(),
            final(self).fullscreen_view() == old(self).fullscreen_view(),
            final(self).fullscreen_request_view() == old(self).fullscreen_request_view(),
            final(self).next_texture_view() == old(self).next_texture_view(),
            final(self).next_sound_view() == old(self).next_sound_view(),
            final(self).texture_requests_view() == old(self).texture_requests_view(),
            final(self).sound_requests_view() == old(self).sound_requests_view(),
            final(self).commands_view() == old(self).commands_view(),
            final(self).audio_view() == old(self).audio_view(),
    {
        self.surface_width = width;
        self.surface_height = height;
    }

    /// Width of the rendering surface in pixels.
    pub fn surface_width(&self) -> (width: u32)
        ensures
            width == self.surface_view().0,
    {
        self.surface_width
    }

    /// Height of the rendering surface in pixels.
    pub fn surface_height(&self) -> (height: u32)
        ensures
            height == self.surface_view().1,
    {
        self.surface_height
    }

    /// Asks for the surface to be resized; a zero dimension is ignored.
    pub fn request_surface_size(&mut self, width: u32, height: u32)
        ensures
            final(self).size_request_view() == if width > 0 && height > 0 {
                Some((width, height))
            } else {
                old(self).size_request_view()
            },
            final(self).exit_view() == old(self).exit_view(),
            final(self).surface_view() == old(self).surface_view(),
            final(self).fullscreen_view() == old(self).fullscreen_view(),
            final(self).fullscreen_request_view() == old(self).fullscreen_request_view(),
            final(self).next_texture_view() == old(self).next_texture_view(),
            final(self).next_sound_view() == old(self).next_sound_view(),
            final(self).texture_requests_view() == old(self).texture_requests_view(),
            final(self).sound_requests_view() == old(self).sound_requests_view(),
            final(self).commands_view() == old(self).commands_view(),
            final(self).audio_view() == old(self).audio_view(),
    {
        if width > 0 && height > 0 {
            self.surface_size_request = Some((width, height));
        }
    }

    /// Takes the pending resize request, leaving none.
    pub fn take_surface_size_request(&mut self) -> (request: Option<(u32, u32)>)
        ensures
            request == old(self).size_request_view(),
            final(self).size_request_view() is None,
            final(self).exit_view() == old(self).exit_view(),
            final(self).surface_view() == old(self).surface_view(),
            final(self).fullscreen_view() == old(self).fullscreen_view(),
            final(self).fullscreen_request_view() == old(self).fullscreen_request_view(),
            final(self).next_texture_view() == old(self).next_texture_view(),
            final(self).next_sound_view() == old(self).next_sound_view(),
            final(self).texture_requests_view() == old(self).texture_requests_view(),
            final(self).sound_requests_view() == old(self).sound_requests_view(),
            final(self).commands_view() == old(self).commands_view(),
            final(self).audio_view() == old(self).audio_view(),
    {
        self.surface_size_request.take()
    }

    /// Whether the window is fullscreen.
    pub fn is_fullscreen(&self) -> (fullscreen: bool)
        ensures
            fullscreen == self.fullscreen_view(),
    {
        self.fullscreen
    }

    /// Records the window's actual fullscreen state.
    pub fn update_fullscreen(&mut self, fullscreen: bool)
        ensures
            final(self).fullscreen_view() == fullscreen,
            final(self).fullscreen_request_view() == old(self).fullscreen_request_view(),
            final(self).exit_view() == old(self).exit_view(),
            final(self).surface_view() == old(self).surface_view(),
            final(self).size_request_view() == old(self).size_request_view(),
            final(self).next_texture_view() == old(self).next_texture_view(),
            final(self).next_sound_view() == old(self).next_sound_view(),
            final(self).texture_requests_view() == old(self).texture_requests_view(),
            final(self).sound_requests_view() == old(self).sound_requests_view(),
            final(self).commands_view() == old(self).commands_view(),
            final(self).audio_view() == old(self).audio_view(),
    {
        self.fullscreen = fullscreen;
    }

    /// Asks for the window to enter or leave fullscreen; the game reads the
    /// requested state back at once.
    pub fn request_fullscreen(&mut self, fullscreen: bool)
        ensures
            final(self).fullscreen_view() == fullscreen,
            final(self).fullscreen_request_view() == Some(fullscreen),
            final(self).exit_view() == old(self).exit_view(),
            final(self).surface_view() == old(self).surface_view(),
            final(self).size_request_view() == old(self).size_request_view(),
            final(self).next_texture_view() == old(self).next_texture_view(),
            final(self).next_sound_view() == old(self).next_sound_view(),
            final(self).texture_requests_view() == old(self).texture_requests_view(),
            final(self).sound_requests_view() == old(self).sound_requests_view(),
            final(self).commands_view() == old(self).commands_view(),
            final(self).audio_view() == old(self).audio_view(),
    {
        self.fullscreen = fullscreen;
        self.fullscreen_request = Some(fullscreen);
    }

    /// Takes the pending fullscreen request, leaving none.
    pub fn take_fullscreen_request(&mut self) -> (request: Option<bool>)
        ensures
            request == old(self).fullscreen_request_view(),
            final(self).fullscreen_request_view() is None,
            final(self).fullscreen_view() == old(self).fullscreen_view(),
            final(self).exit_view() == old(self).exit_view(),
            final(self).surface_view() == old(self).surface_view(),
            final(self).size_request_view() == old(self).size_request_view(),
            final(self).next_texture_view() == old(self).next_texture_view(),
            final(self).next_sound_view() == old(self).next_sound_view(),
            final(self).texture_requests_view() == old(self).texture_requests_view(),
            final(self).sound_requests_view() == old(self).sound_requests_view(),
            final(self).commands_view() == old(self).commands_view(),
            final(self).audio_view() == old(self).audio_view(),
    {
        self.fullscreen_request.take()
    }

    /// How many texture handles have been issued: the index the next one
    /// gets.
    pub fn textures_issued(&self) -> (count: u32)
        ensures
            count == self.next_texture_view(),
    {
        self.next_texture_id
    }

    /// How many sound handles have been issued: the index the next one gets.
    pub fn sounds_issued(&self) -> (count: u32)
        ensures
            count == self.next_sound_view(),
    {
        self.next_sound_id
    }

    /// Reserves a texture handle with nothing queued against it, which is
    /// what a load that failed before producing bytes needs: an unfilled slot
    /// draws the checkerboard.
    pub fn reserve_texture_id(&mut self) -> (id: TextureId)
        requires
            old(self).next_texture_view() < u32::MAX,
        ensures
            id@ == old(self).next_texture_view(),
            final(self).next_texture_view() == old(self).next_texture_view() + 1,
            final(self).texture_requests_view() == old(self).texture_requests_view(),
            final(self).same_but_textures(old(self)),
    {
        let id: TextureId = TextureId::new(self.next_texture_id);
        self.next_texture_id = self.next_texture_id + 1;
        id
    }

    /// Reserves the next texture handle and queues `bytes` against it.
    pub fn queue_texture(&mut self, bytes: Vec<u8>, filter: TextureFilter) -> (id: TextureId)
        requires
            old(self).next_texture_view() < u32::MAX,
        ensures
            id@ == old(self).next_texture_view(),
            final(self).next_texture_view() == old(self).next_texture_view() + 1,
            final(self).texture_requests_view() == old(self).texture_requests_view().push(
                TextureRequest { id, bytes, filter },
            ),
            final(self).same_but_textures(old(self)),
    {
        let id: TextureId = self.reserve_texture_id();
        self.texture_requests.push(TextureRequest { id, bytes, filter });
        id
    }

    /// Registers an image for loading, sampled with nearest filtering, and
    /// returns the handle to draw it with. The bytes are the encoded file.
    pub fn load_texture(&mut self, bytes: &[u8]) -> (id: TextureId)
        requires
            old(self).next_texture_view() < u32::MAX,
        ensures
            id@ == old(self).next_texture_view(),
            final(self).next_texture_view() == old(self).next_texture_view() + 1,
            final(self).texture_requests_view().len() == old(self).texture_requests_view().len() + 1,
            final(self).texture_requests_view().drop_last() == old(self).texture_requests_view(),
            final(self).texture_requests_view().last().id == id,
            final(self).texture_requests_view().last().bytes@ == bytes@,
            final(self).texture_requests_view().last().filter == TextureFilter::Nearest,
            final(self).same_but_textures(old(self)),
    {
        let owned: Vec<u8> = slice_to_vec(bytes);
        let id = self.queue_texture(owned, TextureFilter::Nearest);
        proof {
            assert(self.texture_requests@.drop_last() =~= old(self).texture_requests@);
        }
        id
    }

    /// Registers an image for loading with the given sampling `filter`.
    pub fn load_texture_filtered(&mut self, bytes: &[u8], filter: TextureFilter) -> (id: TextureId)
        requires
            old(self).next_texture_view() < u32::MAX,
        ensures
            id@ == old(self).next_texture_view(),
            final(self).next_texture_view() == old(self).next_texture_view() + 1,
            final(self).texture_requests_view().len() == old(self).texture_requests_view().len() + 1,
            final(self).texture_requests_view().drop_last() == old(self).texture_requests_view(),
            final(self).texture_requests_view().last().id == id,
            final(self).texture_requests_view().last().bytes@ == bytes@,
            final(self).texture_requests_view().last().filter == filter,
            final(self).same_but_textures(old(self)),
    {
        let owned: Vec<u8> = slice_to_vec(bytes);
        let id = self.queue_texture(owned, filter);
        proof {
            assert(self.texture_requests@.drop_last() =~= old(self).texture_requests@);
        }
        id
    }

    /// Reserves a sound handle with nothing queued against it: the clip
    /// never resolves and plays silently.
    pub fn reserve_sound_id(&mut self) -> (id: SoundId)
        requires
            old(self).next_sound_view() < u32::MAX,
        ensures
            id@ == old(self).next_sound_view(),
            final(self).next_sound_view() == old(self).next_sound_view() + 1,
            final(self).sound_requests_view() == old(self).sound_requests_view(),
            final(self).same_but_sounds(old(self)),
    {
        let id: SoundId = SoundId::new(self.next_sound_id);
        self.next_sound_id = self.next_sound_id + 1;
        id
    }

    /// Reserves the next sound handle and queues `bytes` against it.
    pub fn queue_sound(&mut self, bytes: Vec<u8>) -> (id: SoundId)
        requires
            old(self).next_sound_view() < u32::MAX,
        ensures
            id@ == old(self).next_sound_view(),
            final(self).next_sound_view() == old(self).next_sound_view() + 1,
            final(self).sound_requests_view() == old(self).sound_requests_view().push(SoundRequest { id, bytes }),
            final(self).same_but_sounds(old(self)),
    {
        let id: SoundId = self.reserve_sound_id();
        self.sound_requests.push(SoundRequest { id, bytes });
        id
    }

    /// Registers a sound for loading and returns the handle to play it with.
    pub fn load_sound(&mut self, bytes: &[u8]) -> (id: SoundId)
        requires
            old(self).next_sound_view() < u32::MAX,
        ensures
            id@ == old(self).next_sound_view(),
            final(self).next_sound_view() == old(self).next_sound_view() + 1,
            final(self).sound_requests_view().len() == old(self).sound_requests_view().len() + 1,
            final(self).sound_requests_view().drop_last() == old(self).sound_requests_view(),
            final(self).sound_requests_view().last().id == id,
            final(self).sound_requests_view().last().bytes@ == bytes@,
            final(self).same_but_sounds(old(self)),
    {
        let owned: Vec<u8> = slice_to_vec(bytes);
        let id = self.queue_sound(owned);
        proof {
            assert(self.sound_requests@.drop_last() =~= old(self).sound_requests@);
        }
        id
    }

    /// Takes every queued image load, oldest first, leaving none.
    pub fn drain_texture_requests(&mut self) -> (requests: Vec<TextureRequest>)
        ensures
            requests@ == old(self).texture_requests_view(),
            final(self).texture_requests_view() == Seq::<TextureRequest>::empty(),
            final(self).next_texture_view() == old(self).next_texture_view(),
            final(self).same_but_textures(old(self)),
    {
        let mut requests: Vec<TextureRequest> = Vec::new();
        std::mem::swap(&mut requests, &mut self.texture_requests);
        requests
    }

    /// Takes every queued sound load, oldest first, leaving none.
    pub fn drain_sound_requests(&mut self) -> (requests: Vec<SoundRequest>)
        ensures
            requests@ == old(self).sound_requests_view(),
            final(self).sound_requests_view() == Seq::<SoundRequest>::empty(),
            final(self).next_sound_view() == old(self).next_sound_view(),
            final(self).same_but_sounds(old(self)),
    {
        let mut requests: Vec<SoundRequest> = Vec::new();
        std::mem::swap(&mut requests, &mut self.sound_requests);
        requests
    }

    /// Every field but the draw commands is as in `other`.
    pub open spec fn same_but_commands(&self, other: &Context<C, G, S, A>) -> bool {
        &&& self.exit_view() == other.exit_view()
        &&& self.surface_view() == other.surface_view()
        &&& self.size_request_view() == other.size_request_view()
        &&& self.fullscreen_view() == other.fullscreen_view()
        &&& self.fullscreen_request_view() == other.fullscreen_request_view()
        &&& self.next_texture_view() == other.next_texture_view()
        &&& self.texture_requests_view() == other.texture_requests_view()
        &&& self.next_sound_view() == other.next_sound_view()
        &&& self.sound_requests_view() == other.sound_requests_view()
        &&& self.audio_view() == other.audio_view()
    }

    /// Sets the colour the frame is cleared to. Only the last one set in a
    /// frame counts, so any clear colour queued before is dropped.
    pub fn clear_color(&mut self, color: C)
        ensures
            final(self).commands_view() == other_than(old(self).commands_view(), false).push(
                DrawCommand::ClearColor(color),
            ),
            settings_count(final(self).commands_view(), false) == 1,
            settings_count(final(self).commands_view(), true) == settings_count(old(self).commands_view(), true),
            final(self).same_but_commands(old(self)),
    {
        drop_settings(&mut self.commands, false);
        proof {
            lemma_other_than_counts(old(self).commands@, false);
            let kept = self.commands@;
            assert(kept.push(DrawCommand::<C, G, S>::ClearColor(color)).drop_last() =~= kept);
        }
        self.commands.push(DrawCommand::ClearColor(color));
    }

    /// Sets the glow applied to the frame. Only the last one set in a frame
    /// counts, so any glow queued before is dropped.
    pub fn set_glow(&mut self, glow: G)
        ensures
            final(self).commands_view() == other_than(old(self).commands_view(), true).push(DrawCommand::Glow(glow)),
            settings_count(final(self).commands_view(), true) == 1,
            settings_count(final(self).commands_view(), false) == settings_count(old(self).commands_view(), false),
            final(self).same_but_commands(old(self)),
    {
        drop_settings(&mut self.commands, true);
        proof {
            lemma_other_than_counts(old(self).commands@, true);
            let kept = self.commands@;
            assert(kept.push(DrawCommand::<C, G, S>::Glow(glow)).drop_last() =~= kept);
        }
        self.commands.push(DrawCommand::Glow(glow));
    }

    /// Queues a shape to draw, after every shape queued before it.
    pub fn draw(&mut self, shape: S)
        ensures
            final(self).commands_view() == old(self).commands_view().push(DrawCommand::Shape(shape)),
            settings_count(final(self).commands_view(), false) == settings_count(old(self).commands_view(), false),
            settings_count(final(self).commands_view(), true) == settings_count(old(self).commands_view(), true),
            final(self).same_but_commands(old(self)),
    {
        let ghost before = self.commands@;
        self.commands.push(DrawCommand::Shape(shape));
        proof {
            assert(self.commands@.drop_last() =~= before);
        }
    }

    /// Takes every queued draw command, oldest first, leaving none.
    pub fn drain_commands(&mut self) -> (commands: Vec<DrawCommand<C, G, S>>)
        ensures
            commands@ == old(self).commands_view(),
            final(self).commands_view() == Seq::<DrawCommand<C, G, S>>::empty(),
            final(self).same_but_commands(old(self)),
    {
        let mut commands: Vec<DrawCommand<C, G, S>> = Vec::new();
        std::mem::swap(&mut commands, &mut self.commands);
        commands
    }

    /// Queues an audio command for the audio backend, after every one queued
    /// before it.
    pub fn queue_audio(&mut self, command: A)
        ensures
            final(self).audio_view() == old(self).audio_view().push(command),
            final(self).commands_view() == old(self).commands_view(),
            final(self).exit_view() == old(self).exit_view(),
            final(self).surface_view() == old(self).surface_view(),
            final(self).size_request_view() == old(self).size_request_view(),
            final(self).fullscreen_view() == old(self).fullscreen_view(),
            final(self).fullscreen_request_view() == old(self).fullscreen_request_view(),
            final(self).next_texture_view() == old(self).next_texture_view(),
            final(self).texture_requests_view() == old(self).texture_requests_view(),
            final(self).next_sound_view() == old(self).next_sound_view(),
            final(self).sound_requests_view() == old(self).sound_requests_view(),
    {
        self.audio_commands.push(command);
    }

    /// Takes every queued audio command, oldest first, leaving none.
    pub fn drain_audio_commands(&mut self) -> (commands: Vec<A>)
        ensures
            commands@ == old(self).audio_view(),
            final(self).audio_view() == Seq::<A>::empty(),
            final(self).commands_view() == old(self).commands_view(),
            final(self).exit_view() == old(self).exit_view(),
            final(self).surface_view() == old(self).surface_view(),
            final(self).size_request_view() == old(self).size_request_view(),
            final(self).fullscreen_view() == old(self).fullscreen_view(),
            final(self).fullscreen_request_view() == old(self).fullscreen_request_view(),
            final(self).next_texture_view() == old(self).next_texture_view(),
            final(self).texture_requests_view() == old(self).texture_requests_view(),
            final(self).next_sound_view() == old(self).next_sound_view(),
            final(self).sound_requests_view() == old(self).sound_requests_view(),
    {
        let mut commands: Vec<A> = Vec::new();
        std::mem::swap(&mut commands, &mut self.audio_commands);
        commands
    }

    /// Resets the per-frame requests after the frame is done.
    ///
    /// The draw and audio commands and the load queues are cleared too: a windowed runtime has already drained
    /// them, but a headless one never does, and they would otherwise grow for
    /// the life of the process. Handles keep climbing across frames.
    pub fn reset_frame(&mut self)
        ensures
            !final(self).exit_view(),
            final(self).size_request_view() is None,
            final(self).fullscreen_request_view() is None,
            final(self).texture_requests_view() == Seq::<TextureRequest>::empty(),
            final(self).sound_requests_view() == Seq::<SoundRequest>::empty(),
            final(self).next_texture_view() == old(self).next_texture_view(),
            final(self).next_sound_view() == old(self).next_sound_view(),
            final(self).surface_view() == old(self).surface_view(),
            final(self).fullscreen_view() == old(self).fullscreen_view(),
            final(self).commands_view() == Seq::<DrawCommand<C, G, S>>::empty(),
            final(self).audio_view() == Seq::<A>::empty(),
    {
        self.should_exit = false;
        self.surface_size_request = None;
        self.fullscreen_request = None;
        self.texture_requests.clear();
        self.sound_requests.clear();
        self.commands.clear();
        self.audio_commands.clear();
    }
}

impl<C, G, S, A> Default for Context<C, G, S, A> {
    fn default() -> (value: Self)
        ensures
            !value.exit_view(),
            value.size_request_view() is None,
            value.fullscreen_request_view() is None,
            value.next_texture_view() == 0,
            value.next_sound_view() == 0,
            value.texture_requests_view() == Seq::<TextureRequest>::empty(),
            value.sound_requests_view() == Seq::<SoundRequest>::empty(),
            value.commands_view() == Seq::<DrawCommand<C, G, S>>::empty(),
            value.audio_view() == Seq::<A>::empty(),
    {
        Self::new()
    }
}

} // verus!
