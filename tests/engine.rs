use tracker_synth::router::{Buses, Passthrough};
use tracker_synth::engine::{Command, Tracker, NB_TRACKS};
use tracker_synth::pattern::Step;
use tracker_synth::router::BusLevels;
use tracker_synth::tone::Tone;
use tracker_synth::units::UNIT;

fn two_note_song() -> Tracker {
    let mut e = Tracker::new(48_000);
    e.set_tone(0, 0, Some(Tone { octave: 4, semitone: -9 }));
    e.set_tone(0, 4, Some(Tone { octave: 4, semitone: -5 }));
    e.set_chain_phrase(0, 0, Some(0));
    e.set_track_chain(0, 0, Some(0));
    e.apply(Command::SetBpm(120));
    e
}

#[test]
fn two_steps_trigger_two_voices_half_a_second_apart() {
    let mut e = two_note_song();
    e.start(0);
    let mut now = 0;
    while now < 25 * 125_000 {
        now += 1_000;
        e.update(now);
    }
    let voices = &e.tracks[0].voices;
    assert_eq!(voices.len(), 2);
    assert_eq!(voices[0].onset, 0);
    assert_eq!(voices[1].onset, 500_000);
    assert_eq!(voices[1].onset - voices[0].onset, 500_000);
    assert_eq!(voices[0].frequency, 261_625_565);
    assert_eq!(voices[1].frequency, 329_627_557);
    // each voice is held for the note length, whatever else plays
    assert_eq!(voices[0].release, Some(200_000));
    assert_eq!(voices[1].release, Some(700_000));
    for t in 1..NB_TRACKS {
        assert!(e.tracks[t].voices.is_empty());
    }
}

#[test]
fn one_large_update_gives_the_same_onsets() {
    let mut e = two_note_song();
    e.start(0);
    let fired = e.update(25 * 125_000);
    assert_eq!(fired.len(), 25);
    let voices = &e.tracks[0].voices;
    assert_eq!(voices.len(), 2);
    assert_eq!(voices[0].onset, 0);
    assert_eq!(voices[1].onset, 500_000);
    assert_eq!((e.tracks[0].phrase_cursor, e.tracks[0].step_cursor), (1, 9));
}

#[test]
fn tones_are_authored_per_step() {
    let mut e = Tracker::new(48_000);
    assert_eq!(e.get_tone(3, 2), None);
    e.set_tone(3, 2, Some(Tone { octave: 5, semitone: 1 }));
    assert_eq!(e.get_tone(3, 2), Some(Tone { octave: 5, semitone: 1 }));
    let step = e.phrases[3].as_ref().unwrap().step(2).unwrap();
    assert_eq!(step.instrument, 0);
    assert_eq!(step.velocity, 64);
    e.set_tone(3, 2, None);
    assert_eq!(e.get_tone(3, 2), None);
    // out-of-range indices are ignored
    e.set_tone(10_000, 0, Some(Tone { octave: 4, semitone: 0 }));
    e.set_tone(0, 99, Some(Tone { octave: 4, semitone: 0 }));
    assert_eq!(e.get_tone(0, 99), None);
}

#[test]
fn rendering_retires_finished_voices() {
    let mut e = Tracker::new(48_000);
    let step = Step { tone: Tone { octave: 4, semitone: 0 }, instrument: 0, velocity: 255 };
    e.trigger_step_now(1, step, 0);
    e.trigger_step_now(1, step, 100_000);
    // polyphonic: the first voice keeps sounding
    assert_eq!(e.tracks[1].voices.len(), 2);
    assert_eq!(e.tracks[1].voices[0].release, Some(200_000));
    // released at 200 000 and 300 000 us, each fades over a quarter second
    let out = e.render_tracks(200_000);
    assert_eq!(out.len(), NB_TRACKS);
    assert_eq!(e.tracks[1].voices.len(), 2);
    e.render_tracks(460_000);
    assert_eq!(e.tracks[1].voices.len(), 1);
    assert_eq!(e.tracks[1].voices[0].onset, 100_000);
    e.render_tracks(560_000);
    assert!(e.tracks[1].voices.is_empty());
    // a step whose instrument is missing starts nothing
    let missing = Step { tone: Tone { octave: 4, semitone: 0 }, instrument: 7, velocity: 255 };
    e.trigger_step_now(2, missing, 0);
    assert!(e.tracks[2].voices.is_empty());
}

#[test]
fn a_new_engine_is_silent() {
    let mut e = Tracker::new(44_100);
    let mut buses = Buses::new(Passthrough, Passthrough, Passthrough, 8);
    for k in 0..100u64 {
        let r = e.next_stereo_sample(&mut buses, k * 22);
        assert_eq!((r.out.left, r.out.right), (0, 0));
    }
    for t in e.tracks.iter() {
        assert_eq!((t.chain_cursor, t.phrase_cursor, t.step_cursor), (0, 0, 0));
    }
    assert!(e.phrases.iter().all(|p| p.is_none()));
    assert!(e.chains.iter().all(|c| c.is_none()));
}

#[test]
fn commands_are_checked() {
    let mut e = Tracker::new(48_000);
    e.apply(Command::SetBpm(0));
    assert_eq!(e.transport.bpm, 128);
    e.apply(Command::SetTrackLevel { track: 2, level: UNIT / 2 });
    assert_eq!(e.tracks[2].mix_level, UNIT / 2);
    e.apply(Command::SetTrackLevel { track: 2, level: 2 * UNIT });
    assert_eq!(e.tracks[2].mix_level, UNIT / 2);
    let bad = BusLevels { chorus_mix: -1, delay_mix: 0, reverb_mix: 0, chorus_to_reverb: 0, delay_to_reverb: 0 };
    e.apply(Command::SetBusLevels(bad));
    assert_eq!(e.levels, BusLevels::new());
    e.apply(Command::Play(5));
    assert!(e.transport.playing);
    e.apply(Command::Stop);
    assert!(!e.transport.playing);
}

#[test]
fn a_playing_note_reaches_the_output() {
    let mut e = Tracker::new(48_000);
    let mut buses = Buses::new(Passthrough, Passthrough, Passthrough, 16);
    let silent = e.next_stereo_sample(&mut buses, 0).out;
    assert_eq!((silent.left, silent.right), (0, 0));
    let step = Step { tone: Tone { octave: 4, semitone: 0 }, instrument: 0, velocity: 255 };
    e.trigger_step_now(0, step, 0);
    let mut loudest = 0i64;
    for k in 0..480u64 {
        let out = e.next_stereo_sample(&mut buses, k * 1_000_000 / 48_000).out;
        loudest = loudest.max(out.left.abs());
    }
    assert!(loudest > 0);
    assert_eq!(e.tracks[0].meter.len(), 481usize);
}
