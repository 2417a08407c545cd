use redixel::audio::AudioChannel;
use redixel::voices::{
    play_music_voice, play_sound_voice, sfx_count, stop_music_voices, MixVoice, MAX_MUSIC_VOICES,
    MAX_SFX_VOICES,
};

fn faded(voice: u32) -> u32 {
    voice + 1000
}

fn music_voices(voices: &[MixVoice<u32>]) -> Vec<(bool, u32)> {
    voices
        .iter()
        .filter(|voice: &&MixVoice<u32>| voice.channel == AudioChannel::Music)
        .map(|voice: &MixVoice<u32>| (voice.stopping, voice.voice))
        .collect()
}

#[test]
fn sound_effects_stop_starting_at_the_cap() {
    let mut voices: Vec<MixVoice<u32>> = Vec::new();
    for n in 0..MAX_SFX_VOICES {
        assert!(play_sound_voice(&mut voices, n as u32));
    }
    assert_eq!(sfx_count(&voices), MAX_SFX_VOICES);
    assert!(!play_sound_voice(&mut voices, 99));
    assert_eq!(voices.len(), MAX_SFX_VOICES);
    assert_eq!(sfx_count(&voices), 32);
}

#[test]
fn music_does_not_count_against_the_sound_cap() {
    let mut voices: Vec<MixVoice<u32>> = Vec::new();
    play_music_voice(&mut voices, 7, faded);
    for n in 0..MAX_SFX_VOICES {
        assert!(play_sound_voice(&mut voices, n as u32));
    }
    assert_eq!(sfx_count(&voices), MAX_SFX_VOICES);
    assert_eq!(voices.len(), MAX_SFX_VOICES + 1);
}

#[test]
fn a_new_track_fades_out_the_current_one() {
    let mut voices: Vec<MixVoice<u32>> = Vec::new();
    play_music_voice(&mut voices, 1, faded);
    assert_eq!(music_voices(&voices), vec![(false, 1)]);

    play_music_voice(&mut voices, 2, faded);
    assert_eq!(music_voices(&voices), vec![(true, 1001), (false, 2)]);
}

#[test]
fn switching_tracks_never_leaves_more_than_two_music_voices() {
    let mut voices: Vec<MixVoice<u32>> = Vec::new();
    for _ in 0..5 {
        play_music_voice(&mut voices, 1, faded);
    }

    assert_eq!(music_voices(&voices).len(), MAX_MUSIC_VOICES);
    assert!(!voices.last().expect("the newest track is playing").stopping);
}

#[test]
fn sound_effects_beyond_the_voice_cap_are_dropped() {
    let mut voices: Vec<MixVoice<u32>> = Vec::new();
    for _ in 0..MAX_SFX_VOICES + 8 {
        play_sound_voice(&mut voices, 1);
    }

    assert_eq!(voices.len(), MAX_SFX_VOICES);
}

#[test]
fn rapid_track_changes_keep_at_most_two_music_voices() {
    let mut voices: Vec<MixVoice<u32>> = Vec::new();
    for track in 1..=5u32 {
        play_music_voice(&mut voices, track, faded);
        assert!(music_voices(&voices).len() <= MAX_MUSIC_VOICES);
    }
    assert_eq!(music_voices(&voices), vec![(true, 1004), (false, 5)]);
}

#[test]
fn stopping_music_fades_every_track_and_leaves_sound_effects() {
    let mut voices: Vec<MixVoice<u32>> = Vec::new();
    play_sound_voice(&mut voices, 10);
    play_music_voice(&mut voices, 1, faded);
    play_sound_voice(&mut voices, 11);
    play_music_voice(&mut voices, 2, faded);

    stop_music_voices(&mut voices, faded);
    assert_eq!(music_voices(&voices), vec![(true, 1002)]);
    let sounds: Vec<u32> = voices
        .iter()
        .filter(|voice: &&MixVoice<u32>| voice.channel == AudioChannel::Sfx)
        .map(|voice: &MixVoice<u32>| voice.voice)
        .collect();
    assert_eq!(sounds, vec![10, 11]);

    stop_music_voices(&mut voices, faded);
    assert!(music_voices(&voices).is_empty());
    assert_eq!(voices.len(), 2);
}
