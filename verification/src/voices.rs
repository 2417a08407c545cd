//! Which voices the mixer plays: the cap on sound effects, and the crossfade
//! rule that keeps at most one outgoing music track overlapping the next.
//!
//! A voice's samples, position and gain are the mixer's own business; here a
//! voice is its channel, whether it is fading out to stop, and an opaque
//! payload.

use vstd::prelude::*;

use crate::audio::AudioChannel;

verus! {

/// Sound effects mixed at once. A play beyond this is dropped, bounding the
/// mixer's work under a burst of plays.
pub const MAX_SFX_VOICES: usize = 32;

/// Music voices mixed at once: the current track and, during a crossfade, the
/// one fading out.
pub const MAX_MUSIC_VOICES: usize = 2;

/// One playing clip: the channel it mixes through, whether it is fading out
/// to be removed, and what the mixer keeps about it.
pub struct MixVoice<P> {
    pub channel: AudioChannel,
    pub stopping: bool,
    pub voice: P,
}

/// The sound-effect voices of `voices`, in order.
pub open spec fn sfx_voices<P>(voices: Seq<MixVoice<P>>) -> Seq<MixVoice<P>>
    decreases voices.len(),
{
    if voices.len() == 0 {
        seq![]
    } else {
        let before = sfx_voices(voices.drop_last());
        if voices.last().channel == AudioChannel::Sfx {
            before.push(voices.last())
        } else {
            before
        }
    }
}

/// How many voices of `voices` play music.
pub open spec fn music_count<P>(voices: Seq<MixVoice<P>>) -> nat
    decreases voices.len(),
{
    if voices.len() == 0 {
        0
    } else {
        music_count(voices.drop_last()) + if voices.last().channel == AudioChannel::Music {
            1nat
        } else {
            0nat
        }
    }
}

/// How many voices of `voices` play music and are not fading out to stop.
pub open spec fn live_music_count<P>(voices: Seq<MixVoice<P>>) -> nat
    decreases voices.len(),
{
    if voices.len() == 0 {
        0
    } else {
        live_music_count(voices.drop_last()) + if voices.last().channel == AudioChannel::Music
            && !voices.last().stopping {
            1nat
        } else {
            0nat
        }
    }
}

/// At most one music voice is live and at most [`MAX_MUSIC_VOICES`] play:
/// the current track and the one fading out behind it. An empty voice list is
/// in bounds, and every operation here keeps it so.
pub open spec fn music_in_bounds<P>(voices: Seq<MixVoice<P>>) -> bool {
    &&& live_music_count(voices) <= 1
    &&& music_count(voices) <= MAX_MUSIC_VOICES
}

/// Appending a voice adds it to the counts it belongs to.
pub proof fn lemma_counts_push<P>(voices: Seq<MixVoice<P>>, voice: MixVoice<P>)
    ensures
        sfx_voices(voices.push(voice)) == if voice.channel == AudioChannel::Sfx {
            sfx_voices(voices).push(voice)
        } else {
            sfx_voices(voices)
        },
        music_count(voices.push(voice)) == music_count(voices) + if voice.channel == AudioChannel::Music {
            1nat
        } else {
            0nat
        },
        live_music_count(voices.push(voice)) == live_music_count(voices) + if voice.channel
            == AudioChannel::Music && !voice.stopping {
            1nat
        } else {
            0nat
        },
{
    assert(voices.push(voice).drop_last() =~= voices);
}

/// How many sound effects are playing.
pub fn sfx_count<P>(voices: &Vec<MixVoice<P>>) -> (count: usize)
    ensures
        count == sfx_voices(voices@).len(),
{
    let mut count: usize = 0;
    let mut i: usize = 0;
    while i < voices.len()
        invariant
            0 <= i <= voices@.len(),
            count == sfx_voices(voices@.take(i as int)).len(),
            count <= i,
        decreases voices@.len() - i,
    {
        proof {
            assert(voices@.take(i + 1).drop_last() =~= voices@.take(i as int));
        }
        if voices[i].channel == AudioChannel::Sfx {
            count = count + 1;
        }
        i = i + 1;
    }
    proof {
        assert(voices@.take(voices@.len() as int) =~= voices@);
    }
    count
}

/// Starts a sound effect unless [`MAX_SFX_VOICES`] already play, returning
/// whether it started.
pub fn play_sound_voice<P>(voices: &mut Vec<MixVoice<P>>, voice: P) -> (started: bool)
    ensures
        started == (sfx_voices(old(voices)@).len() < MAX_SFX_VOICES),
        started ==> final(voices)@ == old(voices)@.push(MixVoice { channel: AudioChannel::Sfx, stopping: false, voice }),
        !started ==> final(voices)@ == old(voices)@,
        sfx_voices(final(voices)@).len() <= if sfx_voices(old(voices)@).len() < MAX_SFX_VOICES {
            MAX_SFX_VOICES as int
        } else {
            sfx_voices(old(voices)@).len() as int
        },
        music_count(final(voices)@) == music_count(old(voices)@),
        live_music_count(final(voices)@) == live_music_count(old(voices)@),
        music_in_bounds(old(voices)@) ==> music_in_bounds(final(voices)@),
{
    let playing: usize = sfx_count(voices);
    if playing < MAX_SFX_VOICES {
        let added = MixVoice { channel: AudioChannel::Sfx, stopping: false, voice };
        proof {
            lemma_counts_push(voices@, added);
        }
        voices.push(added);
        true
    } else {
        false
    }
}

/// `voices` without the music voices already fading out, in order: the
/// voices that stopping the music keeps.
pub open spec fn kept_on_stop<P>(voices: Seq<MixVoice<P>>) -> Seq<MixVoice<P>>
    decreases voices.len(),
{
    if voices.len() == 0 {
        seq![]
    } else {
        let before = kept_on_stop(voices.drop_last());
        if voices.last().channel == AudioChannel::Music && voices.last().stopping {
            before
        } else {
            before.push(voices.last())
        }
    }
}

/// `after` is `kept` voice for voice, each sound effect as it was and each
/// music voice fading out: stopping, with a payload `fade_out` can make of
/// the kept one's.
pub open spec fn faded_from<P, F: Fn(P) -> P>(kept: Seq<MixVoice<P>>, after: Seq<MixVoice<P>>, fade_out: F) -> bool {
    &&& after.len() == kept.len()
    &&& forall|k: int|
        0 <= k < kept.len() ==> if #[trigger] kept[k].channel == AudioChannel::Sfx {
            after[k] == kept[k]
        } else {
            &&& after[k].channel == AudioChannel::Music
            &&& after[k].stopping
            &&& call_ensures(fade_out, (kept[k].voice,), after[k].voice)
        }
}

/// Fades out every music voice, first removing the ones already fading out,
/// so at most one outgoing track ever overlaps the next. `fade_out` turns a
/// playing voice into one fading to silence. Sound effects are untouched,
/// and every voice kept keeps its place.
pub fn stop_music_voices<P, F: Fn(P) -> P>(voices: &mut Vec<MixVoice<P>>, fade_out: F)
    requires
        forall|p: P| fade_out.requires((p,)),
    ensures
        faded_from(kept_on_stop(old(voices)@), final(voices)@, fade_out),
        sfx_voices(final(voices)@) == sfx_voices(old(voices)@),
        music_count(final(voices)@) == live_music_count(old(voices)@),
        live_music_count(final(voices)@) == 0,
        music_in_bounds(old(voices)@) ==> music_in_bounds(final(voices)@),
{
    let mut queue: Vec<MixVoice<P>> = Vec::new();
    std::mem::swap(&mut queue, voices);
    let ghost given = queue@;
    let n: usize = queue.len();
    let mut stack: Vec<MixVoice<P>> = Vec::new();
    while queue.len() > 0
        invariant
            n == given.len(),
            queue@ == given.take(queue@.len() as int),
            stack@.len() + queue@.len() == n,
            forall|j: int| 0 <= j < stack@.len() ==> #[trigger] stack@[j] == given[n - 1 - j],
        decreases queue@.len(),
    {
        let voice = queue.pop().unwrap();
        stack.push(voice);
        proof {
            assert(queue@ =~= given.take(queue@.len() as int));
        }
    }
    assert(voices@ =~= Seq::<MixVoice<P>>::empty());
    let ghost mut i: int = 0;
    proof {
        assert(given.take(0) =~= Seq::<MixVoice<P>>::empty());
    }
    while stack.len() > 0
        invariant
            n == given.len(),
            0 <= i <= n,
            stack@.len() == n - i,
            forall|j: int| 0 <= j < stack@.len() ==> #[trigger] stack@[j] == given[n - 1 - j],
            forall|p: P| fade_out.requires((p,)),
            faded_from(kept_on_stop(given.take(i)), voices@, fade_out),
            sfx_voices(voices@) == sfx_voices(given.take(i)),
            music_count(voices@) == live_music_count(given.take(i)),
            live_music_count(voices@) == 0,
        decreases stack@.len(),
    {
        let ghost before = voices@;
        let ghost kept_before = kept_on_stop(given.take(i));
        let voice = stack.pop().unwrap();
        proof {
            assert(voice == given[i]);
            assert(given.take(i + 1).drop_last() =~= given.take(i));
        }
        match voice.channel {
            AudioChannel::Music => {
                if !voice.stopping {
                    let ghost source = voice;
                    let faded: P = fade_out(voice.voice);
                    let kept = MixVoice { channel: AudioChannel::Music, stopping: true, voice: faded };
                    proof {
                        lemma_counts_push(before, kept);
                    }
                    voices.push(kept);
                    proof {
                        assert(kept_on_stop(given.take(i + 1)) == kept_before.push(source));
                        assert forall|k: int| 0 <= k < kept_before.len() + 1 implies if #[trigger] kept_before.push(
                            source,
                        )[k].channel == AudioChannel::Sfx {
                            voices@[k] == kept_before.push(source)[k]
                        } else {
                            &&& voices@[k].channel == AudioChannel::Music
                            &&& voices@[k].stopping
                            &&& call_ensures(fade_out, (kept_before.push(source)[k].voice,), voices@[k].voice)
                        } by {
                            if k < kept_before.len() {
                                assert(voices@[k] == before[k]);
                                assert(kept_before.push(source)[k] == kept_before[k]);
                            }
                        }
                    }
                }
            },
            AudioChannel::Sfx => {
                proof {
                    lemma_counts_push(before, voice);
                }
                voices.push(voice);
                proof {
                    assert(kept_on_stop(given.take(i + 1)) == kept_before.push(voice));
                    assert forall|k: int| 0 <= k < kept_before.len() + 1 implies if #[trigger] kept_before.push(
                        voice,
                    )[k].channel == AudioChannel::Sfx {
                        voices@[k] == kept_before.push(voice)[k]
                    } else {
                        &&& voices@[k].channel == AudioChannel::Music
                        &&& voices@[k].stopping
                        &&& call_ensures(fade_out, (kept_before.push(voice)[k].voice,), voices@[k].voice)
                    } by {
                        if k < kept_before.len() {
                            assert(voices@[k] == before[k]);
                            assert(kept_before.push(voice)[k] == kept_before[k]);
                        }
                    }
                }
            },
        }
        proof {
            i = i + 1;
        }
    }
    proof {
        assert(given.take(n as int) =~= given);
    }
}

/// Starts a music voice: every music voice already playing fades out over the
/// crossfade made by `fade_out_previous`, the ones already fading out are cut,
/// and the new voice plays on. Sound effects are untouched.
///
/// Starting from at most one live music voice, at most
/// [`MAX_MUSIC_VOICES`] music voices play afterwards, only the new one live.
pub fn play_music_voice<P, F: Fn(P) -> P>(voices: &mut Vec<MixVoice<P>>, voice: P, fade_out_previous: F)
    requires
        forall|p: P| fade_out_previous.requires((p,)),
    ensures
        final(voices)@.len() >= 1,
        final(voices)@.last() == (MixVoice { channel: AudioChannel::Music, stopping: false, voice }),
        faded_from(kept_on_stop(old(voices)@), final(voices)@.drop_last(), fade_out_previous),
        sfx_voices(final(voices)@) == sfx_voices(old(voices)@),
        music_count(final(voices)@) == live_music_count(old(voices)@) + 1,
        live_music_count(final(voices)@) == 1,
        live_music_count(old(voices)@) <= 1 ==> music_count(final(voices)@) <= MAX_MUSIC_VOICES,
        music_in_bounds(old(voices)@) ==> music_in_bounds(final(voices)@),
{
    stop_music_voices(voices, fade_out_previous);
    let added = MixVoice { channel: AudioChannel::Music, stopping: false, voice };
    proof {
        lemma_counts_push(voices@, added);
    }
    let ghost stopped = voices@;
    voices.push(added);
    proof {
        assert(voices@.drop_last() =~= stopped);
    }
}

} // verus!
