//! The sequencer engine: the transport, the tracks, the pattern store, the
//! instrument bank and the bus levels, driven by commands and by time.
use vstd::prelude::*;

use crate::envelope::Envelope;
use crate::instrument::Instrument;
use crate::mix::{sends_gained, Sends};
use crate::operator::{Memo, Operator, OperatorGraph};
use crate::pattern::{
    TRACK_CHAIN_SLOTS,
    empty_chain_bank, empty_phrase_bank, find_step, lookup_step, slot, Chain, Phrase, Step,
    BANK_SIZE,
};
use crate::router::{sum_sends, sum_tracks, BusLevels, BusOutputs, Buses, EffectUnit};
use crate::mix::Frame;
use crate::tone::microhertz_of;
use crate::meter::keep_last;
use crate::track::{note_end, bank_ok, live_count, next_position, survivors, voice_id, voices_mix, Track, Voice};
use crate::transport::{Transport, TICKS_PER_STEP, TICK_SCALE};
use crate::units::UNIT;
use crate::waveform::{FrequencyModifier, Gain, Waveform};

verus! {

/// Number of tracks.
pub const NB_TRACKS: usize = 8;

/// Tempo of a new engine, in beats per minute.
pub const DEFAULT_BPM: u32 = 128;

/// Position after `k` steps from `p`.
pub open spec fn position_after(p: (int, int, int), k: nat) -> (int, int, int)
    decreases k,
{
    if k == 0 {
        p
    } else {
        let q = position_after(p, (k - 1) as nat);
        next_position(q.0, q.1, q.2)
    }
}

/// Whether the step at position `p` of a track would start a voice: it
/// exists, its tone is well formed and not above octave 39, and its
/// instrument is in the bank.
pub open spec fn playable_at(
    track_chains: Seq<Option<usize>>,
    chains: Seq<Option<Chain>>,
    phrases: Seq<Option<Phrase>>,
    instruments: Seq<Option<Instrument>>,
    p: (int, int, int),
) -> bool {
    match lookup_step(track_chains, chains, phrases, p.0, p.1, p.2) {
        Some(step) => step.tone.wf() && step.tone.octave <= 39 && slot(
            instruments,
            step.instrument as int,
        ) is Some,
        None => false,
    }
}

/// Number of voices started over the `k` steps after position `p`.
pub open spec fn trigger_count(
    track_chains: Seq<Option<usize>>,
    chains: Seq<Option<Chain>>,
    phrases: Seq<Option<Phrase>>,
    instruments: Seq<Option<Instrument>>,
    p: (int, int, int),
    k: nat,
) -> nat
    decreases k,
{
    if k == 0 {
        0
    } else {
        trigger_count(track_chains, chains, phrases, instruments, p, (k - 1) as nat) + if playable_at(
            track_chains,
            chains,
            phrases,
            instruments,
            position_after(p, k),
        ) {
            1nat
        } else {
            0nat
        }
    }
}

/// At 120 beats per minute, from a fresh step, 125 000 microseconds (six
/// ticks of 1/48 s) fire exactly one step, at their end; over that step a
/// track's cursor moves by one, and from the last step of a phrase it
/// wraps to step 0 of the next phrase slot.
pub proof fn lemma_one_step_moves_cursor_once(t: Transport, start: int, p: (int, int, int))
    requires
        t.wf(),
        t.bpm == 120,
        t.acc == 0,
        t.remaining_ticks == TICKS_PER_STEP,
        t.playing,
        t.last_update == Some(start as u64),
        0 <= start <= u64::MAX - 125_000,
        0 <= p.1 < crate::pattern::CHAIN_LENGTH,
        0 <= p.2 < crate::pattern::PHRASE_LENGTH,
    ensures
        t.steps(start + 125_000) == 1,
        t.tick_time(t.step_tick(0)) == start + 125_000,
        position_after(p, 1) == next_position(p.0, p.1, p.2),
        p.2 < 15 ==> position_after(p, 1) == (p.0, p.1, p.2 + 1),
        p.2 == 15 && p.1 < 15 ==> position_after(p, 1) == (p.0, p.1 + 1, 0int),
{
    crate::transport::lemma_one_step_at_120_bpm(t, start);
    assert(position_after(p, 0) == p);
}

/// With no voice on any track, every track's output and their sum are
/// silent.
pub proof fn lemma_silent_without_voices(e: Tracker, now: int)
    requires
        forall|i: int| 0 <= i < NB_TRACKS ==> (#[trigger] e.tracks@[i]).voices@.len() == 0,
    ensures
        forall|i: int| 0 <= i < NB_TRACKS ==> #[trigger] e.rendered(now)[i] == Sends::silence(),
        sum_sends(e.rendered(now), NB_TRACKS as int) == Sends::silence(),
{
    assert forall|i: int| 0 <= i < NB_TRACKS implies #[trigger] e.rendered(now)[i] == Sends::silence() by {
        assert(e.tracks@[i].voices@.len() == 0);
        let g = e.tracks@[i].mix_level as int;
        assert(crate::mix::gained(g, 0) == 0);
        assert(e.track_output(i, now) == Sends::silence());
    }
    lemma_sum_of_silence(e.rendered(now), NB_TRACKS as int);
}

proof fn lemma_sum_of_silence(s: Seq<Sends>, k: int)
    requires
        0 <= k <= s.len(),
        forall|i: int| 0 <= i < k ==> #[trigger] s[i] == Sends::silence(),
    ensures
        sum_sends(s, k) == Sends::silence(),
    decreases k,
{
    if k > 0 {
        lemma_sum_of_silence(s, k - 1);
        assert(s[k - 1] == Sends::silence());
    }
}

proof fn lemma_position_after_from_start(k: nat)
    requires
        k < 256,
    ensures
        position_after((0int, 0int, 0int), k) == (0int, (k / 16) as int, (k % 16) as int),
    decreases k,
{
    if k > 0 {
        lemma_position_after_from_start((k - 1) as nat);
    }
}

/// The pattern of a two-note phrase: track chain slot 0 holds chain 0,
/// whose first phrase slot holds phrase 0 and whose other slots are
/// empty; phrase 0 has playable steps at 0 and 4 and no other.
pub open spec fn two_note_pattern(
    track_chains: Seq<Option<usize>>,
    chains: Seq<Option<Chain>>,
    phrases: Seq<Option<Phrase>>,
    instruments: Seq<Option<Instrument>>,
) -> bool {
    &&& track_chains.len() > 0 && track_chains[0] == Some(0usize)
    &&& chains.len() > 0 && chains[0] is Some
    &&& chains[0]->0.phrases@.len() == crate::pattern::CHAIN_LENGTH
    &&& chains[0]->0.phrases@[0] == Some(0usize)
    &&& forall|k: int| 1 <= k < crate::pattern::CHAIN_LENGTH ==> (#[trigger] chains[0]->0.phrases@[k]) is None
    &&& phrases.len() > 0 && phrases[0] is Some
    &&& phrases[0]->0.steps@.len() == crate::pattern::PHRASE_LENGTH
    &&& forall|k: int|
        0 <= k < crate::pattern::PHRASE_LENGTH ==> ((#[trigger] phrases[0]->0.steps@[k]) is Some <==> (k == 0
            || k == 4))
    &&& forall|k: int|
        0 <= k < crate::pattern::PHRASE_LENGTH && (#[trigger] phrases[0]->0.steps@[k]) is Some ==> {
            let st = phrases[0]->0.steps@[k]->0;
            st.tone.wf() && st.tone.octave <= 39 && slot(instruments, st.instrument as int) is Some
        }
}

/// With the two-note pattern and the cursor at the start, the step under
/// the cursor plays, and of the next 25 steps exactly one plays: the
/// fourth. Starting playback and running 25 steps' worth of ticks thus
/// starts exactly two voices, four steps apart.
pub proof fn lemma_two_notes_in_25_steps(
    track_chains: Seq<Option<usize>>,
    chains: Seq<Option<Chain>>,
    phrases: Seq<Option<Phrase>>,
    instruments: Seq<Option<Instrument>>,
)
    requires
        two_note_pattern(track_chains, chains, phrases, instruments),
    ensures
        playable_at(track_chains, chains, phrases, instruments, (0int, 0int, 0int)),
        playable_at(track_chains, chains, phrases, instruments, position_after((0int, 0int, 0int), 4)),
        forall|k: nat|
            1 <= k <= 25 && k != 4 ==> !#[trigger] playable_at(
                track_chains,
                chains,
                phrases,
                instruments,
                position_after((0int, 0int, 0int), k),
            ),
        trigger_count(track_chains, chains, phrases, instruments, (0int, 0int, 0int), 25) == 1,
{
    let p0 = (0int, 0int, 0int);
    assert(phrases[0]->0.steps@[0] is Some);
    lemma_position_after_from_start(4);
    assert(phrases[0]->0.steps@[4] is Some);
    assert forall|k: nat|
        1 <= k <= 25 && k != 4 implies !#[trigger] playable_at(
            track_chains,
            chains,
            phrases,
            instruments,
            position_after(p0, k),
        ) by {
        lemma_position_after_from_start(k);
        if k < 16 {
            assert(phrases[0]->0.steps@[k as int] is None);
        } else {
            assert(chains[0]->0.phrases@[1] is None);
        }
    }
    lemma_trigger_count_upto(track_chains, chains, phrases, instruments, 25);
}

proof fn lemma_trigger_count_upto(
    track_chains: Seq<Option<usize>>,
    chains: Seq<Option<Chain>>,
    phrases: Seq<Option<Phrase>>,
    instruments: Seq<Option<Instrument>>,
    k: nat,
)
    requires
        k <= 25,
        playable_at(track_chains, chains, phrases, instruments, position_after((0int, 0int, 0int), 4)),
        forall|j: nat|
            1 <= j <= 25 && j != 4 ==> !#[trigger] playable_at(
                track_chains,
                chains,
                phrases,
                instruments,
                position_after((0int, 0int, 0int), j),
            ),
    ensures
        trigger_count(track_chains, chains, phrases, instruments, (0int, 0int, 0int), k) == if k >= 4 {
            1nat
        } else {
            0nat
        },
    decreases k,
{
    if k > 0 {
        lemma_trigger_count_upto(track_chains, chains, phrases, instruments, (k - 1) as nat);
    }
}

/// A control message, applied between render blocks.
#[derive(PartialEq, Eq, Structural, Clone, Copy, Debug)]
pub enum Command {
    SetBpm(u32),
    Play(u64),
    Stop,
    SetTrackLevel { track: usize, level: i64 },
    SetBusLevels(BusLevels),
    Audition { track: usize, step: Step, now: u64 },
}

/// Tone of step `s` of phrase `p`, if both exist.
pub open spec fn tone_at(phrases: Seq<Option<Phrase>>, p: int, s: int) -> Option<crate::tone::Tone> {
    match slot(phrases, p) {
        Some(phrase) => match slot(phrase.steps@, s) {
            Some(step) => Some(step.tone),
            None => None,
        },
        None => None,
    }
}

/// The whole sequencer state.
pub struct Tracker {
    pub transport: Transport,
    pub tracks: Vec<Track>,
    pub chains: Vec<Option<Chain>>,
    pub phrases: Vec<Option<Phrase>>,
    pub instruments: Vec<Option<Instrument>>,
    pub levels: BusLevels,
    pub sample_rate: u32,
    pub memo: Memo,
}

/// `i` is the default instrument: one saw operator at the note's
/// frequency, with no input, under an envelope of 10 ms attack to full
/// scale, 10 ms decay to 0.7 and 250 ms release; dry and reverb sends at
/// full scale, delay at 0.8, no chorus, centred.
pub open spec fn is_default_instrument(i: Instrument) -> bool {
    &&& i.graph.operators@.len() == 1
    &&& i.graph.operators@[0].waveform == Waveform::Saw
    &&& i.graph.operators@[0].frequency_modifier == FrequencyModifier::Unchanged
    &&& i.graph.operators@[0].gain == Gain::Envelope(
        Envelope { attack: 10_000, decay: 10_000, release: 250_000, start_level: 1_000_000, sustained_level: 700_000 },
    )
    &&& i.graph.operators@[0].inputs@.len() == 0
    &&& i.dry_level == UNIT && i.reverb_level == UNIT
    &&& i.chorus_level == 0 && i.delay_level == 800_000 && i.pan == 0
}

/// The saw instrument a new engine starts with: a fast attack and decay
/// to 0.7, released over a quarter second.
pub fn default_instrument() -> (i: Instrument)
    ensures
        i.wf(),
        is_default_instrument(i),
{
    let env = Envelope::new(10_000, 10_000, 250_000, 1_000_000, 700_000);
    let op = Operator {
        waveform: Waveform::Saw,
        frequency_modifier: FrequencyModifier::Unchanged,
        gain: Gain::Envelope(env),
        inputs: Vec::new(),
    };
    let operators = vec![op];
    let rank: Vec<usize> = vec![0];
    let graph = OperatorGraph { operators, rank };
    proof {
        assert(graph.operators@[0].inputs@.len() == 0);
        assert(crate::operator::rank_ints(graph.rank@) =~= seq![0int]);
        assert(crate::operator::is_ranking(graph.operators@, crate::operator::rank_ints(graph.rank@)));
    }
    Instrument::new(graph)
}

impl Tracker {
    pub open spec fn wf(self) -> bool {
        &&& self.transport.wf()
        &&& self.tracks@.len() == NB_TRACKS
        &&& forall|i: int| 0 <= i < NB_TRACKS ==> (#[trigger] self.tracks@[i]).wf()
        &&& bank_ok(self.instruments@)
        &&& self.sample_rate > 0
        &&& self.levels.wf()
    }

    /// Outputs of track `t` for one sample at `now`: its voices' mix at its
    /// mix level.
    pub open spec fn track_output(self, t: int, now: int) -> Sends {
        sends_gained(
            self.tracks@[t].mix_level as int,
            voices_mix(self.tracks@[t].voices@, self.instruments@, now, self.tracks@[t].voices@.len() as int),
        )
    }

    /// Outputs of all tracks for one sample at `now`, in track order.
    pub open spec fn rendered(self, now: int) -> Seq<Sends> {
        Seq::new(NB_TRACKS as nat, |t: int| self.track_output(t, now))
    }

    /// The step under track `t`'s cursor, if any.
    pub open spec fn current_step(self, t: int) -> Option<Step> {
        let p = self.tracks@[t].position();
        lookup_step(self.tracks@[t].chains@, self.chains@, self.phrases@, p.0, p.1, p.2)
    }

    /// Whether the current step of track `t` would start a voice.
    pub open spec fn playable(self, t: int) -> bool {
        playable_at(
            self.tracks@[t].chains@,
            self.chains@,
            self.phrases@,
            self.instruments@,
            self.tracks@[t].position(),
        )
    }

    /// A stopped engine at `DEFAULT_BPM` with eight empty tracks, empty
    /// banks of phrases and chains, and the default instrument at index 0.
    pub fn new(sample_rate: u32) -> (e: Tracker)
        requires
            sample_rate > 0,
        ensures
            e.wf(),
            e.transport == (Transport {
                bpm: DEFAULT_BPM,
                acc: 0,
                tick_count: 0,
                remaining_ticks: TICKS_PER_STEP,
                playing: false,
                last_update: None,
            }),
            e.phrases@.len() == BANK_SIZE,
            e.chains@.len() == BANK_SIZE,
            e.instruments@.len() == 1,
            e.instruments@[0] is Some,
            is_default_instrument(e.instruments@[0]->0),
            e.levels == (BusLevels {
                chorus_mix: UNIT,
                delay_mix: 0,
                reverb_mix: UNIT,
                chorus_to_reverb: 0,
                delay_to_reverb: 0,
            }),
            forall|k: int| 0 <= k < BANK_SIZE ==> (#[trigger] e.phrases@[k]) is None,
            forall|k: int| 0 <= k < BANK_SIZE ==> (#[trigger] e.chains@[k]) is None,
            forall|i: int|
                0 <= i < NB_TRACKS ==> {
                    let t = #[trigger] e.tracks@[i];
                    &&& t.voices@.len() == 0
                    &&& t.position() == (0int, 0int, 0int)
                    &&& t.mix_level == UNIT
                    &&& t.chains@.len() == TRACK_CHAIN_SLOTS
                    &&& forall|k: int| 0 <= k < TRACK_CHAIN_SLOTS ==> (#[trigger] t.chains@[k]) is None
                },
    {
        let mut tracks: Vec<Track> = Vec::new();
        let mut k: usize = 0;
        while k < NB_TRACKS
            invariant
                k <= NB_TRACKS,
                tracks@.len() == k,
                forall|i: int|
                    0 <= i < k ==> {
                        let t = #[trigger] tracks@[i];
                        &&& t.wf()
                        &&& t.voices@.len() == 0
                        &&& t.position() == (0int, 0int, 0int)
                        &&& t.mix_level == UNIT
                        &&& t.chains@.len() == TRACK_CHAIN_SLOTS
                        &&& forall|k: int| 0 <= k < TRACK_CHAIN_SLOTS ==> (#[trigger] t.chains@[k]) is None
                    },
            decreases NB_TRACKS - k,
        {
            tracks.push(Track::new());
            k = k + 1;
        }
        let mut instruments: Vec<Option<Instrument>> = Vec::new();
        instruments.push(Some(default_instrument()));
        Tracker {
            transport: Transport::new(DEFAULT_BPM),
            tracks,
            chains: empty_chain_bank(),
            phrases: empty_phrase_bank(),
            instruments,
            levels: BusLevels::new(),
            sample_rate,
            memo: Memo::new(0),
        }
    }

    /// Starts track `t`'s voice for its current step at `onset`, when that
    /// step exists, has a tone in range and an instrument in the bank.
    pub fn play_note(&mut self, t: usize, onset: u64)
        requires
            old(self).wf(),
            t < NB_TRACKS,
        ensures
            final(self).wf(),
            final(self).transport == old(self).transport,
            final(self).chains@ == old(self).chains@,
            final(self).phrases@ == old(self).phrases@,
            final(self).instruments@ == old(self).instruments@,
            forall|i: int|
                0 <= i < NB_TRACKS && i != t ==> #[trigger] final(self).tracks@[i] == old(self).tracks@[i],
            final(self).tracks@[t as int].position() == old(self).tracks@[t as int].position(),
            final(self).tracks@[t as int].chains@ == old(self).tracks@[t as int].chains@,
            final(self).tracks@[t as int].voices@.len() == old(self).tracks@[t as int].voices@.len()
                + if old(self).playable(t as int) {
                1int
            } else {
                0int
            },
            old(self).playable(t as int) ==> {
                let step = old(self).current_step(t as int)->0;
                let v = final(self).tracks@[t as int].voices@[old(self).tracks@[t as int].voices@.len() as int];
                &&& v.onset == onset
                &&& v.instrument == step.instrument
                &&& v.velocity == step.velocity
                &&& v.frequency == microhertz_of(step.tone.octave as int, step.tone.semitone as int)
                &&& v.release == Some(note_end(onset as int) as u64)
            },
    {
        let tr = &self.tracks[t];
        let found = find_step(
            &tr.chains,
            &self.chains,
            &self.phrases,
            tr.chain_cursor,
            tr.phrase_cursor,
            tr.step_cursor,
        );
        match found {
            None => {},
            Some(step) => {
                if step.tone.semitone >= -9 && step.tone.semitone <= 2 && step.tone.octave <= 39
                    && step.instrument < self.instruments.len() {
                    match &self.instruments[step.instrument] {
                        None => {},
                        Some(inst) => {
                            let n = inst.graph.operators.len();
                            let f = step.tone.frequency_microhertz();
                            let mut track = self.tracks.remove(t);
                            track.trigger_step(step, onset, n, f);
                            self.tracks.insert(t, track);
                            proof {
                                assert forall|i: int| 0 <= i < NB_TRACKS implies (
                                #[trigger] self.tracks@[i]).wf() by {
                                    if i != t {
                                        assert(self.tracks@[i] == old(self).tracks@[i]);
                                    }
                                }
                            }
                        },
                    }
                }
            },
        }
    }

    /// Advances every track by one step and starts the voices of the steps
    /// they land on, at `onset`.
    pub fn step_tracks(&mut self, onset: u64)
        requires
            old(self).wf(),
        ensures
            final(self).wf(),
            final(self).transport == old(self).transport,
            final(self).chains@ == old(self).chains@,
            final(self).phrases@ == old(self).phrases@,
            final(self).instruments@ == old(self).instruments@,
            forall|i: int|
                0 <= i < NB_TRACKS ==> {
                    let a = #[trigger] final(self).tracks@[i];
                    let b = old(self).tracks@[i];
                    let p = b.position();
                    &&& a.chains@ == b.chains@
                    &&& a.position() == next_position(p.0, p.1, p.2)
                    &&& a.voices@.len() == b.voices@.len() + if playable_at(
                        b.chains@,
                        old(self).chains@,
                        old(self).phrases@,
                        old(self).instruments@,
                        next_position(p.0, p.1, p.2),
                    ) {
                        1int
                    } else {
                        0int
                    }
                },
    {
        let mut t: usize = 0;
        while t < NB_TRACKS
            invariant
                self.wf(),
                t <= NB_TRACKS,
                self.transport == old(self).transport,
                self.chains@ == old(self).chains@,
                self.phrases@ == old(self).phrases@,
                self.instruments@ == old(self).instruments@,
                forall|i: int| t <= i < NB_TRACKS ==> #[trigger] self.tracks@[i] == old(self).tracks@[i],
                forall|i: int|
                    0 <= i < t ==> {
                        let a = #[trigger] self.tracks@[i];
                        let b = old(self).tracks@[i];
                        let p = b.position();
                        &&& a.chains@ == b.chains@
                        &&& a.position() == next_position(p.0, p.1, p.2)
                        &&& a.voices@.len() == b.voices@.len() + if playable_at(
                            b.chains@,
                            old(self).chains@,
                            old(self).phrases@,
                            old(self).instruments@,
                            next_position(p.0, p.1, p.2),
                        ) {
                            1int
                        } else {
                            0int
                        }
                    },
            decreases NB_TRACKS - t,
        {
            let ghost mid = self.tracks@;
            let mut track = self.tracks.remove(t);
            track.step();
            self.tracks.insert(t, track);
            proof {
                assert forall|i: int| 0 <= i < NB_TRACKS implies (#[trigger] self.tracks@[i]).wf() by {
                    if i != t {
                        assert(self.tracks@[i] == mid[i]);
                    }
                }
            }
            let ghost stepped = self.tracks@;
            self.play_note(t, onset);
            proof {
                assert forall|i: int| t < i < NB_TRACKS implies #[trigger] self.tracks@[i] == old(self).tracks@[i] by {
                    assert(self.tracks@[i] == stepped[i]);
                    assert(stepped[i] == mid[i]);
                }
                assert forall|i: int| 0 <= i < t implies #[trigger] self.tracks@[i] == mid[i] by {
                    assert(self.tracks@[i] == stepped[i]);
                }
            }
            t = t + 1;
        }
    }

    /// Moves the engine to `now` (microseconds): the transport counts the
    /// elapsed ticks, and at every step boundary each track advances and
    /// starts the voice of the step it lands on, at that boundary's time.
    /// Returns the boundary times.
    pub fn update(&mut self, now: u64) -> (fired: Vec<u64>)
        requires
            old(self).wf(),
        ensures
            final(self).wf(),
            fired@.len() == old(self).transport.steps(now as int),
            forall|j: int|
                0 <= j < fired@.len() ==> #[trigger] fired@[j] == old(self).transport.tick_time(
                    old(self).transport.step_tick(j),
                ),
            final(self).transport.last_update == Some(now),
            final(self).transport.bpm == old(self).transport.bpm,
            final(self).transport.playing == old(self).transport.playing,
            final(self).transport.acc == if old(self).transport.playing
                && old(self).transport.last_update is Some {
                old(self).transport.total(now as int) % (TICK_SCALE as int)
            } else {
                old(self).transport.acc as int
            },
            final(self).transport.tick_count == (old(self).transport.tick_count
                + old(self).transport.ticks(now as int)) % (u64::MAX + 1),
            final(self).transport.remaining_ticks == TICKS_PER_STEP - (TICKS_PER_STEP
                - old(self).transport.remaining_ticks + old(self).transport.ticks(now as int)) % (
            TICKS_PER_STEP as int),
            final(self).chains@ == old(self).chains@,
            final(self).phrases@ == old(self).phrases@,
            final(self).instruments@ == old(self).instruments@,
            forall|i: int|
                0 <= i < NB_TRACKS ==> {
                    let a = #[trigger] final(self).tracks@[i];
                    let b = old(self).tracks@[i];
                    &&& a.chains@ == b.chains@
                    &&& a.position() == position_after(b.position(), fired@.len())
                    &&& a.voices@.len() == b.voices@.len() + trigger_count(
                        b.chains@,
                        old(self).chains@,
                        old(self).phrases@,
                        old(self).instruments@,
                        b.position(),
                        fired@.len(),
                    )
                },
    {
        let fired = self.transport.advance(now);
        let ghost after_clock = self.transport;
        let mut j: usize = 0;
        while j < fired.len()
            invariant
                self.wf(),
                j <= fired@.len(),
                self.transport == after_clock,
                self.chains@ == old(self).chains@,
                self.phrases@ == old(self).phrases@,
                self.instruments@ == old(self).instruments@,
                forall|i: int|
                    0 <= i < NB_TRACKS ==> {
                        let a = #[trigger] self.tracks@[i];
                        let b = old(self).tracks@[i];
                        &&& a.chains@ == b.chains@
                        &&& a.position() == position_after(b.position(), j as nat)
                        &&& a.voices@.len() == b.voices@.len() + trigger_count(
                            b.chains@,
                            old(self).chains@,
                            old(self).phrases@,
                            old(self).instruments@,
                            b.position(),
                            j as nat,
                        )
                    },
            decreases fired@.len() - j,
        {
            self.step_tracks(fired[j]);
            j = j + 1;
        }
        fired
    }

    /// Starts playback at `now`: the transport runs from `now`, and each
    /// track starts the voice of the step under its cursor, at `now`.
    pub fn start(&mut self, now: u64)
        requires
            old(self).wf(),
        ensures
            final(self).wf(),
            final(self).transport == (Transport { playing: true, last_update: Some(now), ..old(self).transport }),
            final(self).chains@ == old(self).chains@,
            final(self).phrases@ == old(self).phrases@,
            final(self).instruments@ == old(self).instruments@,
            forall|i: int|
                0 <= i < NB_TRACKS ==> {
                    let a = #[trigger] final(self).tracks@[i];
                    let b = old(self).tracks@[i];
                    &&& a.position() == b.position()
                    &&& a.chains@ == b.chains@
                    &&& a.voices@.len() == b.voices@.len() + if old(self).playable(i) {
                        1int
                    } else {
                        0int
                    }
                    &&& old(self).playable(i) ==> {
                        let step = old(self).current_step(i)->0;
                        let v = a.voices@[b.voices@.len() as int];
                        &&& v.onset == now
                        &&& v.instrument == step.instrument
                        &&& v.velocity == step.velocity
                        &&& v.frequency == microhertz_of(step.tone.octave as int, step.tone.semitone as int)
                    }
                },
    {
        self.transport.start(now);
        let mut t: usize = 0;
        while t < NB_TRACKS
            invariant
                self.wf(),
                t <= NB_TRACKS,
                self.transport == (Transport { playing: true, last_update: Some(now), ..old(self).transport }),
                self.chains@ == old(self).chains@,
                self.phrases@ == old(self).phrases@,
                self.instruments@ == old(self).instruments@,
                forall|i: int| t <= i < NB_TRACKS ==> #[trigger] self.tracks@[i] == old(self).tracks@[i],
                forall|i: int|
                    0 <= i < t ==> {
                        let a = #[trigger] self.tracks@[i];
                        let b = old(self).tracks@[i];
                        &&& a.position() == b.position()
                        &&& a.chains@ == b.chains@
                        &&& a.voices@.len() == b.voices@.len() + if old(self).playable(i) {
                            1int
                        } else {
                            0int
                        }
                        &&& old(self).playable(i) ==> {
                            let step = old(self).current_step(i)->0;
                            let v = a.voices@[b.voices@.len() as int];
                            &&& v.onset == now
                            &&& v.instrument == step.instrument
                            &&& v.velocity == step.velocity
                            &&& v.frequency == microhertz_of(step.tone.octave as int, step.tone.semitone as int)
                        }
                    },
            decreases NB_TRACKS - t,
        {
            let ghost mid = self.tracks@;
            self.play_note(t, now);
            proof {
                assert forall|i: int| 0 <= i < NB_TRACKS && i != t implies #[trigger] self.tracks@[i] == mid[i] by {}
            }
            t = t + 1;
        }
    }

    /// Renders one sample of every track at `now`; returns each track's
    /// outputs, in track order. Finished voices are retired.
    pub fn render_tracks(&mut self, now: u64) -> (out: Vec<Sends>)
        requires
            old(self).wf(),
        ensures
            final(self).wf(),
            out@ == old(self).rendered(now as int),
            forall|i: int| 0 <= i < NB_TRACKS ==> (#[trigger] out@[i]).wf(),
            final(self).transport == old(self).transport,
            final(self).levels == old(self).levels,
            final(self).chains@ == old(self).chains@,
            final(self).phrases@ == old(self).phrases@,
            final(self).instruments@ == old(self).instruments@,
            forall|i: int|
                0 <= i < NB_TRACKS ==> {
                    let a = #[trigger] final(self).tracks@[i];
                    let b = old(self).tracks@[i];
                    &&& a.position() == b.position()
                    &&& a.chains@ == b.chains@
                    &&& a.mix_level == b.mix_level
                    &&& a.voices@.len() == live_count(b.voices@, old(self).instruments@, now as int, b.voices@.len() as int)
                    &&& a.voices@.map_values(|v: Voice| voice_id(v)) == survivors(
                        b.voices@,
                        old(self).instruments@,
                        now as int,
                        b.voices@.len() as int,
                    )
                },
    {
        let mut out: Vec<Sends> = Vec::new();
        let mut t: usize = 0;
        while t < NB_TRACKS
            invariant
                self.wf(),
                t <= NB_TRACKS,
                out@.len() == t,
                forall|i: int| 0 <= i < t ==> (#[trigger] out@[i]).wf(),
                forall|i: int| 0 <= i < t ==> #[trigger] out@[i] == old(self).track_output(i, now as int),
                self.transport == old(self).transport,
                self.levels == old(self).levels,
                self.chains@ == old(self).chains@,
                self.phrases@ == old(self).phrases@,
                self.instruments@ == old(self).instruments@,
                forall|i: int| t <= i < NB_TRACKS ==> #[trigger] self.tracks@[i] == old(self).tracks@[i],
                forall|i: int|
                    0 <= i < t ==> {
                        let a = #[trigger] self.tracks@[i];
                        let b = old(self).tracks@[i];
                        &&& a.position() == b.position()
                        &&& a.chains@ == b.chains@
                        &&& a.mix_level == b.mix_level
                        &&& a.voices@.len() == live_count(b.voices@, old(self).instruments@, now as int, b.voices@.len() as int)
                        &&& a.voices@.map_values(|v: Voice| voice_id(v)) == survivors(
                            b.voices@,
                            old(self).instruments@,
                            now as int,
                            b.voices@.len() as int,
                        )
                    },
            decreases NB_TRACKS - t,
        {
            let ghost mid = self.tracks@;
            let mut track = self.tracks.remove(t);
            let s = track.render(&self.instruments, now, self.sample_rate, &mut self.memo);
            self.tracks.insert(t, track);
            proof {
                assert forall|i: int| 0 <= i < NB_TRACKS implies (#[trigger] self.tracks@[i]).wf() by {
                    if i != t {
                        assert(self.tracks@[i] == mid[i]);
                    }
                }
                assert forall|i: int| t < i < NB_TRACKS implies #[trigger] self.tracks@[i] == old(self).tracks@[i] by {
                    assert(self.tracks@[i] == mid[i]);
                }
                assert forall|i: int| 0 <= i < t implies #[trigger] self.tracks@[i] == mid[i] by {}
            }
            out.push(s);
            t = t + 1;
        }
        proof {
            assert(out@ =~= old(self).rendered(now as int));
        }
        out
    }

    /// Renders one stereo sample at `now`: every track, summed per bus,
    /// then routed through the effect buses into the final mix. Without
    /// any voice the summed track outputs are silent, so the output is the
    /// effect buses' alone.
    pub fn next_stereo_sample<E: EffectUnit>(&mut self, buses: &mut Buses<E>, now: u64) -> (r: BusOutputs)
        requires
            old(self).wf(),
            old(buses).wf(),
        ensures
            final(self).wf(),
            final(buses).wf(),
            r.chorus.wf() && r.delay.wf() && r.reverb.wf() && r.out.wf(),
            ({
                let sum = sum_sends(old(self).rendered(now as int), NB_TRACKS as int);
                &&& r.reverb_input == old(self).levels.reverb_input_of(sum.reverb, r.chorus, r.delay)
                &&& r.out == old(self).levels.output_of(sum.dry, r.chorus, r.delay, r.reverb)
            }),
            (forall|i: int| 0 <= i < NB_TRACKS ==> (#[trigger] old(self).tracks@[i]).voices@.len() == 0)
                ==> sum_sends(old(self).rendered(now as int), NB_TRACKS as int) == Sends::silence(),
            final(buses).out_meter.view() == keep_last(
                old(buses).out_meter.view().push(r.out),
                old(buses).out_meter.capacity(),
            ),
            final(self).transport == old(self).transport,
            final(self).levels == old(self).levels,
    {
        let sends = self.render_tracks(now);
        let sum = sum_tracks(&sends);
        proof {
            if forall|i: int| 0 <= i < NB_TRACKS ==> (#[trigger] old(self).tracks@[i]).voices@.len() == 0 {
                lemma_silent_without_voices(*old(self), now as int);
            }
        }
        buses.route(&self.levels, &sum)
    }

    /// Applies a control message. Out-of-range tracks and levels, and a
    /// zero tempo, are ignored.
    pub fn apply(&mut self, command: Command)
        requires
            old(self).wf(),
        ensures
            final(self).wf(),
            final(self).chains@ == old(self).chains@,
            final(self).phrases@ == old(self).phrases@,
            final(self).instruments@ == old(self).instruments@,
            match command {
                Command::SetBpm(b) => final(self).transport.bpm == if b > 0 {
                    b
                } else {
                    old(self).transport.bpm
                },
                Command::Play(now) => final(self).transport.playing && final(self).transport.last_update
                    == Some(now),
                Command::Stop => !final(self).transport.playing,
                Command::SetTrackLevel { track, level } => if track < NB_TRACKS && 0 <= level <= UNIT {
                    final(self).tracks@[track as int].mix_level == level
                } else {
                    final(self).tracks@ == old(self).tracks@
                },
                Command::SetBusLevels(l) => final(self).levels == if l.wf() {
                    l
                } else {
                    old(self).levels
                },
                Command::Audition { track, step, now } => track < NB_TRACKS ==> final(self).tracks@[track as int].voices@.len() == old(self).tracks@[track as int].voices@.len()
                    + if step.tone.wf() && step.tone.octave <= 39 && slot(
                    old(self).instruments@,
                    step.instrument as int,
                ) is Some {
                    1int
                } else {
                    0int
                },
            },
    {
        match command {
            Command::SetBpm(b) => {
                if b > 0 {
                    self.transport.set_bpm(b);
                }
            },
            Command::Play(now) => {
                self.start(now);
            },
            Command::Stop => {
                self.transport.set_playing(false);
            },
            Command::SetTrackLevel { track, level } => {
                if track < NB_TRACKS && 0 <= level && level <= UNIT {
                    let ghost mid = self.tracks@;
                    let mut tr = self.tracks.remove(track);
                    tr.set_mix_level(level);
                    self.tracks.insert(track, tr);
                    proof {
                        assert forall|i: int| 0 <= i < NB_TRACKS implies (#[trigger] self.tracks@[i]).wf() by {
                            if i != track {
                                assert(self.tracks@[i] == mid[i]);
                            }
                        }
                    }
                }
            },
            Command::SetBusLevels(l) => {
                if 0 <= l.chorus_mix && l.chorus_mix <= UNIT && 0 <= l.delay_mix && l.delay_mix
                    <= UNIT && 0 <= l.reverb_mix && l.reverb_mix <= UNIT && 0 <= l.chorus_to_reverb
                    && l.chorus_to_reverb <= UNIT && 0 <= l.delay_to_reverb && l.delay_to_reverb
                    <= UNIT {
                    self.levels = l;
                }
            },
            Command::Audition { track, step, now } => {
                if track < NB_TRACKS {
                    self.trigger_step_now(track, step, now);
                }
            },
        }
    }

    /// Makes sure phrase `index` exists, creating it empty if needed.
    /// Indices outside the bank are ignored.
    pub fn get_phrase(&mut self, index: usize)
        requires
            old(self).wf(),
        ensures
            final(self).wf(),
            final(self).phrases@.len() == old(self).phrases@.len(),
            index < old(self).phrases@.len() ==> final(self).phrases@[index as int] is Some,
            index < old(self).phrases@.len() && old(self).phrases@[index as int] is Some ==> final(self).phrases@ == old(self).phrases@,
            index < old(self).phrases@.len() && old(self).phrases@[index as int] is None ==> {
                &&& final(self).phrases@[index as int]->0.steps@.len() == crate::pattern::PHRASE_LENGTH
                &&& forall|k: int|
                    0 <= k < crate::pattern::PHRASE_LENGTH
                        ==> #[trigger] final(self).phrases@[index as int]->0.steps@[k] is None
            },
            forall|i: int|
                0 <= i < old(self).phrases@.len() && i != index ==> #[trigger] final(self).phrases@[i]
                    == old(self).phrases@[i],
            final(self).transport == old(self).transport,
            final(self).tracks@ == old(self).tracks@,
            final(self).chains@ == old(self).chains@,
            final(self).instruments@ == old(self).instruments@,
    {
        if index < self.phrases.len() && self.phrases[index].is_none() {
            self.phrases.set(index, Some(Phrase::new()));
        }
    }

    /// Tone of step `step` of phrase `phrase`, if both exist.
    pub fn get_tone(&self, phrase: usize, step: usize) -> (r: Option<crate::tone::Tone>)
        ensures
            r == tone_at(self.phrases@, phrase as int, step as int),
    {
        if phrase < self.phrases.len() {
            match &self.phrases[phrase] {
                Some(p) => match p.step(step) {
                    Some(st) => Some(st.tone),
                    None => None,
                },
                None => None,
            }
        } else {
            None
        }
    }

    /// Writes the tone of step `step` of phrase `phrase`, creating the
    /// phrase if needed. `None` empties the step; a tone on an empty step
    /// creates a step for instrument 0 at velocity 64; on an existing step
    /// only the tone changes. Out-of-range indices are ignored.
    pub fn set_tone(&mut self, phrase: usize, step: usize, value: Option<crate::tone::Tone>)
        requires
            old(self).wf(),
        ensures
            final(self).wf(),
            final(self).phrases@.len() == old(self).phrases@.len(),
            forall|i: int|
                0 <= i < old(self).phrases@.len() && i != phrase ==> #[trigger] final(self).phrases@[i]
                    == old(self).phrases@[i],
            phrase < old(self).phrases@.len() && step < crate::pattern::PHRASE_LENGTH && (old(self).phrases@[phrase as int] is None || step < old(self).phrases@[phrase as int]->0.steps@.len())
                ==> tone_at(final(self).phrases@, phrase as int, step as int) == value,
            phrase < old(self).phrases@.len() && step < crate::pattern::PHRASE_LENGTH && value is Some
                && tone_at(old(self).phrases@, phrase as int, step as int) is None && (old(self).phrases@[phrase as int] is None || step < old(self).phrases@[phrase as int]->0.steps@.len())
                ==> slot(final(self).phrases@[phrase as int]->0.steps@, step as int) == Some(
                Step { tone: value->0, instrument: 0, velocity: 64 },
            ),
            final(self).transport == old(self).transport,
            final(self).tracks@ == old(self).tracks@,
            final(self).chains@ == old(self).chains@,
            final(self).instruments@ == old(self).instruments@,
    {
        if phrase >= self.phrases.len() {
            return;
        }
        let mut p = match self.phrases.remove(phrase) {
            Some(p) => p,
            None => Phrase::new(),
        };
        let current = p.step(step);
        let next = match value {
            None => None,
            Some(t) => match current {
                Some(st) => Some(Step { tone: t, instrument: st.instrument, velocity: st.velocity }),
                None => Some(Step { tone: t, instrument: 0, velocity: 64 }),
            },
        };
        p.set_step(step, next);
        self.phrases.insert(phrase, Some(p));
    }

    /// Writes phrase slot `index` of chain `chain`, creating the chain if
    /// needed. Out-of-range indices are ignored.
    pub fn set_chain_phrase(&mut self, chain: usize, index: usize, phrase: Option<usize>)
        requires
            old(self).wf(),
        ensures
            final(self).wf(),
            final(self).chains@.len() == old(self).chains@.len(),
            forall|i: int|
                0 <= i < old(self).chains@.len() && i != chain ==> #[trigger] final(self).chains@[i]
                    == old(self).chains@[i],
            chain < old(self).chains@.len() && index < crate::pattern::CHAIN_LENGTH && (old(self).chains@[chain as int] is None || index < old(self).chains@[chain as int]->0.phrases@.len())
                ==> final(self).chains@[chain as int] is Some && final(self).chains@[chain as int]->0.phrases@[index as int]
                == phrase,
            final(self).transport == old(self).transport,
            final(self).tracks@ == old(self).tracks@,
            final(self).phrases@ == old(self).phrases@,
            final(self).instruments@ == old(self).instruments@,
    {
        if chain >= self.chains.len() {
            return;
        }
        let mut c = match self.chains.remove(chain) {
            Some(c) => c,
            None => Chain::new(),
        };
        c.set_phrase(index, phrase);
        self.chains.insert(chain, Some(c));
    }

    /// Writes chain slot `index` of track `track`. Out-of-range indices are
    /// ignored.
    pub fn set_track_chain(&mut self, track: usize, index: usize, chain: Option<usize>)
        requires
            old(self).wf(),
        ensures
            final(self).wf(),
            forall|i: int|
                0 <= i < NB_TRACKS && i != track ==> #[trigger] final(self).tracks@[i] == old(self).tracks@[i],
            track < NB_TRACKS && index < old(self).tracks@[track as int].chains@.len()
                ==> final(self).tracks@[track as int].chains@ == old(self).tracks@[track as int].chains@.update(index as int, chain),
            track < NB_TRACKS ==> final(self).tracks@[track as int].position() == old(self).tracks@[track as int].position(),
            final(self).transport == old(self).transport,
            final(self).chains@ == old(self).chains@,
            final(self).phrases@ == old(self).phrases@,
            final(self).instruments@ == old(self).instruments@,
    {
        if track < NB_TRACKS {
            let ghost mid = self.tracks@;
            let mut tr = self.tracks.remove(track);
            if index < tr.chains.len() {
                tr.chains.set(index, chain);
            }
            self.tracks.insert(track, tr);
            proof {
                assert forall|i: int| 0 <= i < NB_TRACKS implies (#[trigger] self.tracks@[i]).wf() by {
                    if i != track {
                        assert(self.tracks@[i] == mid[i]);
                    }
                }
            }
        }
    }

    /// Puts `instrument` at `index` of the bank, growing the bank with
    /// empty slots as needed.
    pub fn set_instrument(&mut self, index: usize, instrument: Option<Instrument>)
        requires
            old(self).wf(),
            index < usize::MAX,
            match instrument {
                Some(i) => i.wf(),
                None => true,
            },
        ensures
            final(self).wf(),
            final(self).instruments@.len() == if index < old(self).instruments@.len() {
                old(self).instruments@.len() as int
            } else {
                index + 1
            },
            final(self).instruments@[index as int] == instrument,
            forall|i: int|
                0 <= i < old(self).instruments@.len() && i != index ==> #[trigger] final(self).instruments@[i] == old(self).instruments@[i],
            final(self).transport == old(self).transport,
            final(self).tracks@ == old(self).tracks@,
            final(self).chains@ == old(self).chains@,
            final(self).phrases@ == old(self).phrases@,
    {
        while self.instruments.len() <= index
            invariant
                self.wf(),
                index < usize::MAX,
                self.instruments@.len() >= old(self).instruments@.len(),
                forall|i: int|
                    0 <= i < old(self).instruments@.len() ==> #[trigger] self.instruments@[i] == old(self).instruments@[i],
                forall|i: int|
                    old(self).instruments@.len() <= i < self.instruments@.len()
                        ==> #[trigger] self.instruments@[i] is None,
                self.instruments@.len() <= if index < old(self).instruments@.len() {
                    old(self).instruments@.len() as int
                } else {
                    index + 1
                },
                self.transport == old(self).transport,
                self.tracks@ == old(self).tracks@,
                self.chains@ == old(self).chains@,
                self.phrases@ == old(self).phrases@,
            decreases index + 1 - self.instruments@.len(),
        {
            self.instruments.push(None);
        }
        self.instruments.set(index, instrument);
    }

    /// Starts a voice for `step` on track `t` at `now`, outside the
    /// transport, when its tone is in range and its instrument in the bank.
    pub fn trigger_step_now(&mut self, t: usize, step: Step, now: u64)
        requires
            old(self).wf(),
            t < NB_TRACKS,
        ensures
            final(self).wf(),
            final(self).transport == old(self).transport,
            final(self).chains@ == old(self).chains@,
            final(self).phrases@ == old(self).phrases@,
            final(self).instruments@ == old(self).instruments@,
            final(self).tracks@[t as int].voices@.len() == old(self).tracks@[t as int].voices@.len()
                + if step.tone.wf() && step.tone.octave <= 39 && slot(
                old(self).instruments@,
                step.instrument as int,
            ) is Some {
                1int
            } else {
                0int
            },
            forall|i: int|
                0 <= i < NB_TRACKS && i != t ==> #[trigger] final(self).tracks@[i] == old(self).tracks@[i],
            final(self).tracks@[t as int].position() == old(self).tracks@[t as int].position(),
            forall|k: int|
                0 <= k < old(self).tracks@[t as int].voices@.len() ==> #[trigger] final(self).tracks@[t as int].voices@[k]
                    == old(self).tracks@[t as int].voices@[k],
            step.tone.wf() && step.tone.octave <= 39 && slot(old(self).instruments@, step.instrument as int) is Some
                ==> {
                let v = final(self).tracks@[t as int].voices@[old(self).tracks@[t as int].voices@.len() as int];
                &&& v.onset == now
                &&& v.instrument == step.instrument
                &&& v.velocity == step.velocity
                &&& v.frequency == microhertz_of(step.tone.octave as int, step.tone.semitone as int)
                &&& v.release == Some(note_end(now as int) as u64)
            },
    {
        if step.tone.semitone >= -9 && step.tone.semitone <= 2 && step.tone.octave <= 39
            && step.instrument < self.instruments.len() {
            match &self.instruments[step.instrument] {
                None => {},
                Some(inst) => {
                    let n = inst.graph.operators.len();
                    let f = step.tone.frequency_microhertz();
                    let ghost mid = self.tracks@;
                    let mut track = self.tracks.remove(t);
                    track.trigger_step(step, now, n, f);
                    self.tracks.insert(t, track);
                    proof {
                        assert forall|i: int| 0 <= i < NB_TRACKS implies (#[trigger] self.tracks@[i]).wf() by {
                            if i != t {
                                assert(self.tracks@[i] == mid[i]);
                            }
                        }
                    }
                },
            }
        }
    }
}

} // verus!
