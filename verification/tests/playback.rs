use redixel::audio::{ClipState, SoundId};
use redixel::playback::{ClipPlayback, Route};
use redixel::pending::ReadyPlay;

type Playback = ClipPlayback<&'static str, (f32, f32), f32>;

#[test]
fn a_play_on_a_decoded_clip_starts_at_once() {
    let mut playback: Playback = ClipPlayback::new();
    let id: SoundId = SoundId::new(0);
    playback.load_clip(id);
    playback.decode_finished(id, Some("samples"));

    assert_eq!(playback.play_sound(id, (1.0, 1.0)), Route::Start);
    assert_eq!(playback.clip(id), Some(&"samples"));
    assert!(playback.take_ready(0).is_empty());
}

#[test]
fn a_play_on_a_decoding_clip_starts_when_it_resolves() {
    let mut playback: Playback = ClipPlayback::new();
    let id: SoundId = SoundId::new(1);
    playback.load_clip(id);

    assert_eq!(playback.play_sound(id, (0.5, 2.0)), Route::Wait);
    assert!(playback.take_ready(1_000).is_empty());

    playback.decode_finished(id, Some("samples"));
    assert_eq!(
        playback.take_ready(1_000),
        vec![ReadyPlay::Sound {
            clip: id,
            params: (0.5, 2.0)
        }]
    );
}

#[test]
fn a_play_on_an_unknown_or_failed_clip_is_dropped() {
    let mut playback: Playback = ClipPlayback::new();
    assert_eq!(playback.play_sound(SoundId::new(4), (1.0, 1.0)), Route::Drop);

    playback.load_clip(SoundId::new(0));
    playback.decode_finished(SoundId::new(0), None);
    assert_eq!(playback.clip_state(SoundId::new(0)), ClipState::Failed);
    assert_eq!(playback.play_music(SoundId::new(0), 1.0), Route::Drop);
}

#[test]
fn a_newer_music_play_cancels_the_waiting_one_even_when_it_starts_at_once() {
    let mut playback: Playback = ClipPlayback::new();
    let slow: SoundId = SoundId::new(0);
    let fast: SoundId = SoundId::new(1);
    playback.load_clip(slow);
    playback.load_clip(fast);
    playback.decode_finished(fast, Some("fast"));

    assert_eq!(playback.play_music(slow, 0.5), Route::Wait);
    assert_eq!(playback.play_music(fast, 1.0), Route::Start);

    playback.decode_finished(slow, Some("slow"));
    assert!(
        playback.take_ready(0).is_empty(),
        "an older music request must never start after a newer one"
    );
}

#[test]
fn stopping_music_cancels_its_waiting_play() {
    let mut playback: Playback = ClipPlayback::new();
    let id: SoundId = SoundId::new(0);
    playback.load_clip(id);
    playback.play_music(id, 1.0);
    playback.stop_music();
    playback.decode_finished(id, Some("music"));

    assert!(playback.take_ready(0).is_empty());
}
