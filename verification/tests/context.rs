use redixel::context::{Context, DrawCommand, SoundRequest, TextureRequest};
use redixel::texture::{TextureFilter, TextureId};

#[test]
fn context_exit_flag_roundtrip() {
    let mut ctx: Context = Context::new();
    assert!(!ctx.should_exit());
    ctx.exit();
    assert!(ctx.should_exit());
    ctx.reset_frame();
    assert!(!ctx.should_exit());
}

#[test]
fn load_texture_assigns_sequential_ids() {
    let mut ctx: Context = Context::new();

    let first: TextureId = ctx.load_texture(b"first");
    let second: TextureId = ctx.load_texture(b"second");
    let third: TextureId = ctx.load_texture(b"third");

    assert_eq!(
        [first.index(), second.index(), third.index()],
        [0, 1, 2],
        "the renderer indexes its slots by id, so they must stay dense and ordered"
    );
}

#[test]
fn load_texture_queues_the_bytes_against_its_id() {
    let mut ctx: Context = Context::new();
    let id: TextureId = ctx.load_texture(b"png bytes");

    let requests: Vec<TextureRequest> = ctx.drain_texture_requests();

    assert_eq!(requests.len(), 1);
    assert_eq!(requests[0].id, id);
    assert_eq!(requests[0].bytes, b"png bytes");
}

#[test]
fn texture_requests_drain_once() {
    let mut ctx: Context = Context::new();
    ctx.load_texture(b"first");
    ctx.load_texture(b"second");

    assert_eq!(ctx.drain_texture_requests().len(), 2);
    assert_eq!(
        ctx.drain_texture_requests().len(),
        0,
        "a second drain would re-upload textures that are already resident"
    );
}

#[test]
fn reset_frame_clears_texture_requests() {
    let mut ctx: Context = Context::new();
    ctx.load_texture(b"never drained");

    ctx.reset_frame();

    assert_eq!(
        ctx.drain_texture_requests().len(),
        0,
        "headless never drains the queue; without this it grows forever"
    );
}

#[test]
fn ids_keep_climbing_across_frames() {
    let mut ctx: Context = Context::new();
    ctx.load_texture(b"first");
    ctx.reset_frame();

    let later: TextureId = ctx.load_texture(b"second");

    assert_eq!(later.index(), 1, "reusing an id would alias two images");
}

#[test]
fn a_reserved_texture_id_queues_nothing() {
    let mut ctx: Context = Context::new();
    let reserved: TextureId = ctx.reserve_texture_id();
    let loaded: TextureId = ctx.load_texture_filtered(b"bytes", TextureFilter::Linear);

    assert_eq!((reserved.index(), loaded.index()), (0, 1));

    let requests: Vec<TextureRequest> = ctx.drain_texture_requests();
    assert_eq!(requests.len(), 1);
    assert_eq!(requests[0].id, loaded);
    assert_eq!(requests[0].filter, TextureFilter::Linear);
}

#[test]
fn sound_ids_climb_independently_of_texture_ids() {
    let mut ctx: Context = Context::new();
    ctx.load_texture(b"image");
    let first = ctx.load_sound(b"clip");
    let skipped = ctx.reserve_sound_id();
    let second = ctx.load_sound(b"other clip");

    assert_eq!([first.index(), skipped.index(), second.index()], [0, 1, 2]);

    let requests: Vec<SoundRequest> = ctx.drain_sound_requests();
    assert_eq!(requests.len(), 2);
    assert_eq!(requests[1].id, second);
    assert_eq!(requests[1].bytes, b"other clip");
    assert!(ctx.drain_sound_requests().is_empty());
}

#[test]
fn a_zero_sized_surface_request_is_ignored() {
    let mut ctx: Context = Context::new();
    ctx.request_surface_size(0, 600);
    assert_eq!(ctx.take_surface_size_request(), None);

    ctx.request_surface_size(800, 600);
    assert_eq!(ctx.take_surface_size_request(), Some((800, 600)));
    assert_eq!(ctx.take_surface_size_request(), None);
}

#[test]
fn a_fullscreen_request_reads_back_at_once() {
    let mut ctx: Context = Context::new();
    ctx.request_fullscreen(true);

    assert!(ctx.is_fullscreen());
    assert_eq!(ctx.take_fullscreen_request(), Some(true));
    assert_eq!(ctx.take_fullscreen_request(), None);

    ctx.update_fullscreen(false);
    assert!(!ctx.is_fullscreen());
}

#[test]
fn reset_frame_drops_pending_requests_but_keeps_the_surface() {
    let mut ctx: Context = Context::new();
    ctx.update_state(1280, 720);
    ctx.request_surface_size(640, 480);
    ctx.request_fullscreen(true);
    ctx.load_sound(b"clip");
    ctx.reset_frame();

    assert_eq!(ctx.take_surface_size_request(), None);
    assert_eq!(ctx.take_fullscreen_request(), None);
    assert!(ctx.drain_sound_requests().is_empty());
    assert_eq!((ctx.surface_width(), ctx.surface_height()), (1280, 720));
    assert!(ctx.is_fullscreen());
}

#[test]
fn issued_counts_follow_every_handle_handed_out() {
    let mut ctx: Context = Context::new();
    assert_eq!(ctx.textures_issued(), 0);
    assert_eq!(ctx.sounds_issued(), 0);

    ctx.load_texture(&[1, 2, 3]);
    ctx.reserve_texture_id();
    ctx.load_sound(&[4]);

    assert_eq!(ctx.textures_issued(), 2);
    assert_eq!(ctx.sounds_issued(), 1);

    ctx.reset_frame();
    assert_eq!(ctx.textures_issued(), 2, "handles are never reused across frames");
    assert_eq!(ctx.sounds_issued(), 1);
}

/// A context drawing with `[f32; 4]` colours, `f32` glow and `u32` shapes,
/// and queueing `&'static str` audio commands.
type Drawing = Context<[f32; 4], f32, u32, &'static str>;

#[test]
fn context_draw_commands_accumulate() {
    let mut ctx: Drawing = Context::new();
    ctx.draw(1);
    ctx.draw(2);

    let drained: Vec<DrawCommand<[f32; 4], f32, u32>> = ctx.drain_commands();
    assert_eq!(drained.len(), 2);
    assert!(matches!(drained[0], DrawCommand::Shape(1)));
    assert!(matches!(drained[1], DrawCommand::Shape(2)));
    assert!(ctx.drain_commands().is_empty());
}

#[test]
fn context_clear_color_deduplicates() {
    let mut ctx: Drawing = Context::new();

    ctx.clear_color([1.0, 0.0, 0.0, 1.0]);
    ctx.draw(7);
    ctx.clear_color([0.0, 0.0, 1.0, 1.0]);

    let commands: Vec<DrawCommand<[f32; 4], f32, u32>> = ctx.drain_commands();
    let clears: Vec<&DrawCommand<[f32; 4], f32, u32>> = commands
        .iter()
        .filter(|c: &&DrawCommand<[f32; 4], f32, u32>| matches!(c, DrawCommand::ClearColor(..)))
        .collect();

    assert_eq!(clears.len(), 1);
    assert!(matches!(clears[0], DrawCommand::ClearColor(color) if *color == [0.0, 0.0, 1.0, 1.0]));
    assert!(matches!(commands[0], DrawCommand::Shape(7)), "shapes keep their place");
}

#[test]
fn context_glow_deduplicates() {
    let mut ctx: Drawing = Context::new();

    ctx.set_glow(0.3);
    ctx.set_glow(0.8);

    let commands: Vec<DrawCommand<[f32; 4], f32, u32>> = ctx.drain_commands();
    let glows: Vec<&DrawCommand<[f32; 4], f32, u32>> = commands
        .iter()
        .filter(|c: &&DrawCommand<[f32; 4], f32, u32>| matches!(c, DrawCommand::Glow(..)))
        .collect();

    assert_eq!(glows.len(), 1);
    assert!(matches!(glows[0], DrawCommand::Glow(amount) if *amount == 0.8));
}

#[test]
fn a_glow_does_not_replace_the_clear_color() {
    let mut ctx: Drawing = Context::new();
    ctx.clear_color([0.0, 0.0, 0.0, 1.0]);
    ctx.set_glow(0.5);
    assert_eq!(ctx.drain_commands().len(), 2);
}

#[test]
fn audio_commands_queue_in_order_and_drain_once() {
    let mut ctx: Drawing = Context::new();
    ctx.queue_audio("play");
    ctx.queue_audio("stop");
    assert_eq!(ctx.drain_audio_commands(), vec!["play", "stop"]);
    assert!(ctx.drain_audio_commands().is_empty());
}

#[test]
fn reset_frame_clears_draw_and_audio_commands() {
    let mut ctx: Drawing = Context::new();
    ctx.clear_color([0.0, 0.0, 0.0, 1.0]);
    ctx.draw(3);
    ctx.queue_audio("play");

    ctx.reset_frame();

    assert!(ctx.drain_commands().is_empty());
    assert!(ctx.drain_audio_commands().is_empty());
}
