use redixel::audio::{ClipState, SoundId};
use redixel::pending::{MAX_WAIT_MICROS, MAX_WAITING_SOUNDS, PendingPlays, ReadyPlay};

/// What a sound play carries: volume and pitch.
type SoundParams = (f32, f32);

/// What a music play carries: volume, fade-in, fade-out of the previous
/// track, and whether it loops.
type MusicParams = (f32, f32, f32, bool);

const DEFAULT_MUSIC: MusicParams = (1.0, 0.0, 0.0, true);

/// A tenth of a second.
const TICK: u64 = 100_000;

fn clip() -> SoundId {
    SoundId::new(0)
}

fn other() -> SoundId {
    SoundId::new(1)
}

fn sound(clip: SoundId) -> ReadyPlay<SoundParams, MusicParams> {
    ReadyPlay::Sound {
        clip,
        params: (1.0, 1.0),
    }
}

#[test]
fn a_sound_starts_once_its_clip_is_ready() {
    let mut pending: PendingPlays<SoundParams, MusicParams> = PendingPlays::default();
    pending.wait_sound(clip(), (1.0, 1.0));

    assert!(pending.take_ready(TICK, |_: SoundId| ClipState::Pending).is_empty());
    assert_eq!(pending.take_ready(TICK, |_: SoundId| ClipState::Ready), vec![sound(clip())]);
    assert!(
        pending.take_ready(TICK, |_: SoundId| ClipState::Ready).is_empty(),
        "a started play must not start again"
    );
}

#[test]
fn a_play_on_a_failed_clip_is_dropped() {
    let mut pending: PendingPlays<SoundParams, MusicParams> = PendingPlays::default();
    pending.wait_sound(clip(), (1.0, 1.0));

    assert!(pending.take_ready(TICK, |_: SoundId| ClipState::Failed).is_empty());
    assert!(pending.take_ready(TICK, |_: SoundId| ClipState::Ready).is_empty());
}

#[test]
fn a_play_that_waits_too_long_is_dropped() {
    let mut pending: PendingPlays<SoundParams, MusicParams> = PendingPlays::default();
    pending.wait_sound(clip(), (1.0, 1.0));

    assert!(
        pending
            .take_ready(MAX_WAIT_MICROS, |_: SoundId| ClipState::Pending)
            .is_empty()
    );
    assert!(pending.take_ready(TICK, |_: SoundId| ClipState::Ready).is_empty());
}

#[test]
fn a_newer_music_play_replaces_the_waiting_one() {
    let mut pending: PendingPlays<SoundParams, MusicParams> = PendingPlays::default();
    pending.wait_music(clip(), DEFAULT_MUSIC);
    pending.wait_music(other(), DEFAULT_MUSIC);

    assert_eq!(
        pending.take_ready(TICK, |_: SoundId| ClipState::Ready),
        vec![ReadyPlay::Music {
            clip: other(),
            options: DEFAULT_MUSIC
        }]
    );
}

#[test]
fn cancelling_music_drops_its_waiting_play() {
    let mut pending: PendingPlays<SoundParams, MusicParams> = PendingPlays::default();
    pending.wait_music(clip(), DEFAULT_MUSIC);
    pending.cancel_music();

    assert!(pending.take_ready(TICK, |_: SoundId| ClipState::Ready).is_empty());
}

#[test]
fn sound_plays_beyond_the_cap_are_dropped() {
    let mut pending: PendingPlays<SoundParams, MusicParams> = PendingPlays::default();
    for _ in 0..MAX_WAITING_SOUNDS + 5 {
        pending.wait_sound(clip(), (1.0, 1.0));
    }

    assert_eq!(pending.take_ready(TICK, |_: SoundId| ClipState::Ready).len(), MAX_WAITING_SOUNDS);
}

#[test]
fn only_plays_on_resolved_clips_are_taken() {
    let mut pending: PendingPlays<SoundParams, MusicParams> = PendingPlays::default();
    pending.wait_sound(clip(), (1.0, 1.0));
    pending.wait_sound(other(), (1.0, 1.0));

    assert_eq!(
        pending.take_ready(TICK, |id: SoundId| if id == clip() {
            ClipState::Ready
        } else {
            ClipState::Pending
        }),
        vec![sound(clip())]
    );
    assert_eq!(pending.take_ready(TICK, |_: SoundId| ClipState::Ready), vec![sound(other())]);
}

#[test]
fn a_play_survives_just_short_of_the_limit() {
    let mut pending: PendingPlays<SoundParams, MusicParams> = PendingPlays::new();
    pending.wait_sound(clip(), (0.5, 2.0));

    assert!(pending.take_ready(MAX_WAIT_MICROS - 1, |_: SoundId| ClipState::Pending).is_empty());
    assert_eq!(pending.waiting_sounds(), 1);
    assert!(pending.take_ready(1, |_: SoundId| ClipState::Pending).is_empty());
    assert_eq!(pending.waiting_sounds(), 0);
}

#[test]
fn sound_plays_start_before_the_music_play() {
    let mut pending: PendingPlays<SoundParams, MusicParams> = PendingPlays::new();
    pending.wait_music(other(), DEFAULT_MUSIC);
    pending.wait_sound(clip(), (1.0, 1.0));

    assert_eq!(
        pending.take_ready(0, |_: SoundId| ClipState::Ready),
        vec![
            sound(clip()),
            ReadyPlay::Music {
                clip: other(),
                options: DEFAULT_MUSIC
            }
        ]
    );
    assert!(!pending.music_waiting());
}

#[test]
fn a_pending_music_play_keeps_waiting() {
    let mut pending: PendingPlays<SoundParams, MusicParams> = PendingPlays::new();
    pending.wait_music(other(), DEFAULT_MUSIC);

    assert!(pending.take_ready(TICK, |_: SoundId| ClipState::Pending).is_empty());
    assert!(pending.music_waiting());
    assert_eq!(pending.take_ready(TICK, |_: SoundId| ClipState::Ready).len(), 1);
}
