//! Voices and tracks: cursors through the pattern store, and the mixer of
//! the voices a track has triggered.
use vstd::prelude::*;

use crate::instrument::Instrument;
use crate::meter::{keep_last, Meter};
use crate::mix::{sends_gained, sends_sum, Sends};
use crate::operator::{done_of, inputs_done, output, Memo, Operator};
use crate::pattern::{empty_track_chains, slot, Step, CHAIN_LENGTH, PHRASE_LENGTH, TRACK_CHAIN_SLOTS};
use crate::units::{PHASE_CYCLE, UNIT};
use crate::waveform::{modified_frequency, opt_int, scale, wave_value};

verus! {

/// Time from `at` to `now`, or zero when `now` is earlier.
pub open spec fn time_since(now: int, at: int) -> int {
    if now >= at {
        now - at
    } else {
        0
    }
}

/// `v` scaled by a velocity out of 255, rounded down.
pub open spec fn velocity_scaled(v: int, velocity: int) -> int {
    v * velocity / 255
}

/// Phase advance per sample at `f` microhertz and `sample_rate` samples
/// per second.
pub open spec fn phase_step(f: int, sample_rate: int) -> int {
    (f * PHASE_CYCLE / (1_000_000 * sample_rate)) % (PHASE_CYCLE as int)
}

/// Phase of operator `i` one sample later.
pub open spec fn next_phase(ops: Seq<Operator>, phases: Seq<u32>, frequency: int, sample_rate: int, i: int) -> u32 {
    ((phases[i] + phase_step(modified_frequency(ops[i].frequency_modifier, frequency), sample_rate))
        % (PHASE_CYCLE as int)) as u32
}

/// One sounding instance of an instrument. Times are in microseconds and
/// absolute; `release` is when the key is released, if it is.
#[derive(Clone, Debug)]
pub struct Voice {
    pub instrument: usize,
    pub frequency: u64,
    pub velocity: u8,
    pub onset: u64,
    pub release: Option<u64>,
    pub phases: Vec<u32>,
}

impl Voice {
    /// Time since release at `now`, if the release time has come.
    pub open spec fn released_for(self, now: int) -> Option<int> {
        match self.release {
            Some(rel) => if now >= rel {
                Some(now - rel)
            } else {
                None
            },
            None => None,
        }
    }

    /// The voice's sample at `now` with instrument `inst`.
    pub open spec fn value_at(self, inst: Instrument, now: int) -> int {
        velocity_scaled(
            inst.graph.output_of(
                self.phases@,
                time_since(now, self.onset as int),
                self.released_for(now),
                0,
            ),
            self.velocity as int,
        )
    }

    /// Whether the voice has finished at `now`: its carrier and every
    /// operator feeding it are done.
    pub open spec fn finished_at(self, inst: Instrument, now: int) -> bool {
        done_of(inst.graph.operators@, inst.graph.rank@, self.released_for(now), 0)
    }

    /// A held voice of `instrument` with `n` operators, starting at `onset`.
    pub fn new(instrument: usize, frequency: u64, velocity: u8, onset: u64, n: usize) -> (v: Voice)
        ensures
            v.instrument == instrument && v.frequency == frequency && v.velocity == velocity,
            v.onset == onset && v.release is None,
            v.phases@ == Seq::new(n as nat, |i: int| 0u32),
    {
        let mut phases: Vec<u32> = Vec::new();
        let mut k: usize = 0;
        while k < n
            invariant
                k <= n,
                phases@ == Seq::new(k as nat, |i: int| 0u32),
            decreases n - k,
        {
            phases.push(0);
            k = k + 1;
            assert(phases@ =~= Seq::new(k as nat, |i: int| 0u32));
        }
        Voice { instrument, frequency, velocity, onset, release: None, phases }
    }

    /// Renders one sample at `now` and moves every operator's phase on by
    /// one sample. Returns the voice's outputs and whether it is finished.
    pub fn render(&mut self, inst: &Instrument, now: u64, sample_rate: u32, memo: &mut Memo) -> (r: (
        Sends,
        bool,
    ))
        requires
            inst.wf(),
            old(self).phases@.len() == inst.graph.operators@.len(),
            sample_rate > 0,
        ensures
            r.0 == inst.sends_for(old(self).value_at(*inst, now as int)),
            r.0.wf(),
            r.1 == old(self).finished_at(*inst, now as int),
            final(self).instrument == old(self).instrument,
            final(self).frequency == old(self).frequency,
            final(self).velocity == old(self).velocity,
            final(self).onset == old(self).onset,
            final(self).release == old(self).release,
            final(self).phases@.len() == old(self).phases@.len(),
            forall|i: int|
                0 <= i < old(self).phases@.len() ==> #[trigger] final(self).phases@[i] == next_phase(
                    inst.graph.operators@,
                    old(self).phases@,
                    old(self).frequency as int,
                    sample_rate as int,
                    i,
                ),
    {
        let t: u64 = if now >= self.onset {
            now - self.onset
        } else {
            0
        };
        let rel: Option<u64> = match self.release {
            Some(x) => if now >= x {
                Some(now - x)
            } else {
                None
            },
            None => None,
        };
        proof {
            assert(opt_int(rel) == self.released_for(now as int));
        }
        let (v, done) = inst.graph.sample(&self.phases, t, rel, memo);
        proof {
            assert(-255 * UNIT <= v * self.velocity <= 255 * UNIT) by (nonlinear_arith)
                requires
                    -UNIT <= v <= UNIT,
                    0 <= self.velocity <= 255,
            ;
            vstd::arithmetic::div_mod::lemma_div_is_ordered(v * self.velocity, 255 * UNIT, 255);
            vstd::arithmetic::div_mod::lemma_div_is_ordered(-255 * UNIT, v * self.velocity, 255);
        }
        let scaled: i64 = crate::units::floor_div(v * self.velocity as i64, 255);
        let out = inst.sends(scaled);
        let ghost old_phases = self.phases@;
        let n = self.phases.len();
        let mut i: usize = 0;
        while i < n
            invariant
                n == old_phases.len(),
                n == inst.graph.operators@.len(),
                sample_rate > 0,
                old_phases == old(self).phases@,
                self.instrument == old(self).instrument,
                self.frequency == old(self).frequency,
                self.velocity == old(self).velocity,
                self.onset == old(self).onset,
                self.release == old(self).release,
                self.phases@.len() == n,
                i <= n,
                forall|k: int| i <= k < n ==> #[trigger] self.phases@[k] == old_phases[k],
                forall|k: int|
                    0 <= k < i ==> #[trigger] self.phases@[k] == next_phase(
                        inst.graph.operators@,
                        old_phases,
                        self.frequency as int,
                        sample_rate as int,
                        k,
                    ),
            decreases n - i,
        {
            let f = inst.graph.operators[i].frequency_modifier.apply(self.frequency);
            proof {
                assert(f * PHASE_CYCLE <= u64::MAX * PHASE_CYCLE) by (nonlinear_arith)
                    requires
                        f <= u64::MAX,
                ;
            }
            let step: u128 = (f as u128 * PHASE_CYCLE as u128 / (1_000_000 * sample_rate as u128))
                % PHASE_CYCLE as u128;
            let p: u128 = (self.phases[i] as u128 + step) % PHASE_CYCLE as u128;
            self.phases.set(i, p as u32);
            i = i + 1;
        }
        (out, done)
    }
}

/// Voices come and go without a click when their carrier's gain is an
/// envelope with an attack: a voice is silent at its onset, and silent at
/// any moment at which it counts as finished, so retiring it removes
/// nothing that was sounding.
pub proof fn lemma_voice_enters_and_leaves_silently(v: Voice, inst: Instrument, now: int)
    requires
        inst.wf(),
        inst.graph.operators@[0].gain is Envelope,
    ensures
        v.finished_at(inst, now) ==> v.value_at(inst, now) == 0,
        inst.graph.operators@[0].gain->Envelope_0.attack > 0 && now == v.onset && v.released_for(now) is None
            ==> v.value_at(inst, now) == 0,
{
    let ops = inst.graph.operators@;
    let g = ops[0].gain;
    let t = time_since(now, v.onset as int);
    let r = v.released_for(now);
    let out = output(ops, inst.graph.rank@, v.phases@, t, r, 0);
    let n = ops[0].inputs@.len() as int;
    let moved = if inputs_done(ops, inst.graph.rank@, r, 0, n) {
        0
    } else {
        crate::operator::input_phase(ops, inst.graph.rank@, v.phases@, t, r, 0, n)
    };
    let p = (v.phases@[0] + moved) % (PHASE_CYCLE as int);
    assert(out == scale(g.level_at(t, r), wave_value(ops[0].waveform, p)));
    if v.finished_at(inst, now) || (g->Envelope_0.attack > 0 && now == v.onset && v.released_for(now) is None) {
        assert(g.level_at(t, r) == 0);
        assert(out == 0);
        assert(velocity_scaled(0, v.velocity as int) == 0);
    }
}

/// How long a triggered voice is held before its release, in
/// microseconds.
pub const NOTE_LENGTH: u64 = 200_000;

/// When a voice started at `onset` is released (saturating at the end of
/// the clock).
pub open spec fn note_end(onset: int) -> int {
    if onset + NOTE_LENGTH <= u64::MAX {
        onset + NOTE_LENGTH
    } else {
        u64::MAX as int
    }
}

/// Cursor position `(chain, phrase, step)` after one step: the step
/// cursor wraps at the phrase's end and then moves the phrase cursor,
/// which wraps at the chain's end and then moves the chain cursor.
pub open spec fn next_position(c: int, p: int, s: int) -> (int, int, int) {
    if s + 1 < PHRASE_LENGTH {
        (c, p, s + 1)
    } else if p + 1 < CHAIN_LENGTH {
        (c, p + 1, 0)
    } else {
        ((c + 1) % (TRACK_CHAIN_SLOTS as int), 0, 0)
    }
}

/// Frames kept by a metering tap.
pub const METER_CAPACITY: usize = 2048;

/// One channel of the sequencer: its chain slots, its cursors, its mix
/// level (millionths), the voices it has triggered, and a metering tap on
/// its dry output.
pub struct Track {
    pub chains: Vec<Option<usize>>,
    pub chain_cursor: usize,
    pub phrase_cursor: usize,
    pub step_cursor: usize,
    pub mix_level: i64,
    pub voices: Vec<Voice>,
    pub meter: Meter,
}

/// Every entry of the instrument bank is well formed.
pub open spec fn bank_ok(instruments: Seq<Option<Instrument>>) -> bool {
    forall|i: int| 0 <= i < instruments.len() && (#[trigger] instruments[i]) is Some ==> instruments[i]->0.wf()
}

/// Whether `v` can sound with the bank: its instrument exists and has as
/// many operators as the voice has phases.
pub open spec fn playable(v: Voice, instruments: Seq<Option<Instrument>>) -> bool {
    match slot(instruments, v.instrument as int) {
        Some(inst) => inst.graph.operators@.len() == v.phases@.len(),
        None => false,
    }
}

/// Sum of the outputs of the first `k` voices at `now`; voices that cannot
/// sound give silence.
pub open spec fn voices_mix(voices: Seq<Voice>, instruments: Seq<Option<Instrument>>, now: int, k: int) -> Sends
    decreases k,
{
    if k <= 0 {
        Sends {
            dry: crate::mix::Frame { left: 0, right: 0 },
            chorus: crate::mix::Frame { left: 0, right: 0 },
            delay: crate::mix::Frame { left: 0, right: 0 },
            reverb: crate::mix::Frame { left: 0, right: 0 },
        }
    } else {
        let prev = voices_mix(voices, instruments, now, k - 1);
        let v = voices[k - 1];
        if playable(v, instruments) {
            let inst = slot(instruments, v.instrument as int)->0;
            sends_sum(prev, inst.sends_for(v.value_at(inst, now)))
        } else {
            prev
        }
    }
}

/// Number of the first `k` voices still sounding after `now`.
pub open spec fn live_count(voices: Seq<Voice>, instruments: Seq<Option<Instrument>>, now: int, k: int) -> nat
    decreases k,
{
    if k <= 0 {
        0
    } else {
        let v = voices[k - 1];
        live_count(voices, instruments, now, k - 1) + if playable(v, instruments) && !v.finished_at(
            slot(instruments, v.instrument as int)->0,
            now,
        ) {
            1nat
        } else {
            0nat
        }
    }
}

/// What identifies a voice apart from its phases: instrument, frequency,
/// velocity, onset and release.
pub open spec fn voice_id(v: Voice) -> (usize, u64, u8, u64, Option<u64>) {
    (v.instrument, v.frequency, v.velocity, v.onset, v.release)
}

/// The first `k` voices that still sound after `now`, in order.
pub open spec fn survivors(voices: Seq<Voice>, instruments: Seq<Option<Instrument>>, now: int, k: int) -> Seq<
    (usize, u64, u8, u64, Option<u64>),
>
    decreases k,
{
    if k <= 0 {
        Seq::empty()
    } else {
        let v = voices[k - 1];
        let prev = survivors(voices, instruments, now, k - 1);
        if playable(v, instruments) && !v.finished_at(slot(instruments, v.instrument as int)->0, now) {
            prev.push(voice_id(v))
        } else {
            prev
        }
    }
}

impl Track {
    /// The cursors lie within their ranges and the mix level within full
    /// scale.
    pub open spec fn wf(self) -> bool {
        &&& self.chain_cursor < TRACK_CHAIN_SLOTS
        &&& self.phrase_cursor < CHAIN_LENGTH
        &&& self.step_cursor < PHRASE_LENGTH
        &&& 0 <= self.mix_level <= UNIT
        &&& self.meter.wf()
    }

    /// The cursors as a triple.
    pub open spec fn position(self) -> (int, int, int) {
        (self.chain_cursor as int, self.phrase_cursor as int, self.step_cursor as int)
    }

    /// A track at the start of its first chain slot, at full level, silent.
    pub fn new() -> (t: Track)
        ensures
            t.wf(),
            t.chains@.len() == TRACK_CHAIN_SLOTS,
            forall|i: int| 0 <= i < TRACK_CHAIN_SLOTS ==> t.chains@[i] is None,
            t.position() == (0int, 0int, 0int),
            t.mix_level == UNIT,
            t.voices@.len() == 0,
    {
        Track {
            chains: empty_track_chains(),
            chain_cursor: 0,
            phrase_cursor: 0,
            step_cursor: 0,
            mix_level: UNIT,
            voices: Vec::new(),
            meter: Meter::new(METER_CAPACITY),
        }
    }

    /// Advances the cursors by one step.
    pub fn step(&mut self)
        requires
            old(self).wf(),
        ensures
            final(self).wf(),
            final(self).position() == next_position(
                old(self).chain_cursor as int,
                old(self).phrase_cursor as int,
                old(self).step_cursor as int,
            ),
            final(self).chains == old(self).chains,
            final(self).voices == old(self).voices,
            final(self).mix_level == old(self).mix_level,
    {
        if self.step_cursor + 1 < PHRASE_LENGTH {
            self.step_cursor = self.step_cursor + 1;
        } else {
            self.step_cursor = 0;
            if self.phrase_cursor + 1 < CHAIN_LENGTH {
                self.phrase_cursor = self.phrase_cursor + 1;
            } else {
                self.phrase_cursor = 0;
                self.chain_cursor = (self.chain_cursor + 1) % TRACK_CHAIN_SLOTS;
            }
        }
    }

    /// Sets the mix level.
    pub fn set_mix_level(&mut self, level: i64)
        requires
            old(self).wf(),
            0 <= level <= UNIT,
        ensures
            final(self).wf(),
            final(self).mix_level == level,
            final(self).position() == old(self).position(),
            final(self).chains == old(self).chains,
            final(self).voices == old(self).voices,
    {
        self.mix_level = level;
    }

    /// Starts a voice for `step` at `onset`, with `n` operators, at
    /// `frequency` microhertz. Tracks are polyphonic: the voices already
    /// sounding are left as they are, and each new voice is held for
    /// `NOTE_LENGTH` and then released, so it ends with its release tail.
    pub fn trigger_step(&mut self, step: Step, onset: u64, n: usize, frequency: u64)
        ensures
            final(self).voices@.len() == old(self).voices@.len() + 1,
            forall|k: int|
                0 <= k < old(self).voices@.len() ==> #[trigger] final(self).voices@[k] == old(
                    self,
                ).voices@[k],
            ({
                let v = final(self).voices@[old(self).voices@.len() as int];
                &&& v.instrument == step.instrument
                &&& v.frequency == frequency
                &&& v.velocity == step.velocity
                &&& v.onset == onset
                &&& v.release == Some(note_end(onset as int) as u64)
                &&& v.phases@ == Seq::new(n as nat, |i: int| 0u32)
            }),
            final(self).chains == old(self).chains,
            final(self).position() == old(self).position(),
            final(self).mix_level == old(self).mix_level,
            final(self).meter == old(self).meter,
    {
        let mut v = Voice::new(step.instrument, frequency, step.velocity, onset, n);
        let end: u64 = if onset <= u64::MAX - NOTE_LENGTH {
            onset + NOTE_LENGTH
        } else {
            u64::MAX
        };
        v.release = Some(end);
        self.voices.push(v);
    }

    /// Renders one sample of every voice at `now`, sums their outputs and
    /// applies the mix level. Voices that have finished, or whose
    /// instrument is missing, are retired.
    pub fn render(
        &mut self,
        instruments: &Vec<Option<Instrument>>,
        now: u64,
        sample_rate: u32,
        memo: &mut Memo,
    ) -> (s: Sends)
        requires
            old(self).wf(),
            bank_ok(instruments@),
            sample_rate > 0,
        ensures
            s.wf(),
            s == sends_gained(
                old(self).mix_level as int,
                voices_mix(old(self).voices@, instruments@, now as int, old(self).voices@.len() as int),
            ),
            final(self).voices@.len() == live_count(
                old(self).voices@,
                instruments@,
                now as int,
                old(self).voices@.len() as int,
            ),
            final(self).voices@.map_values(|v: Voice| voice_id(v)) == survivors(
                old(self).voices@,
                instruments@,
                now as int,
                old(self).voices@.len() as int,
            ),
            final(self).wf(),
            final(self).chains == old(self).chains,
            final(self).position() == old(self).position(),
            final(self).mix_level == old(self).mix_level,
            final(self).meter.view() == keep_last(old(self).meter.view().push(s.dry), old(self).meter.capacity()),
    {
        let ghost before = self.voices@;
        let mut old_voices: Vec<Voice> = Vec::new();
        std::mem::swap(&mut old_voices, &mut self.voices);
        let mut acc = Sends::silent();
        let n = old_voices.len();
        let mut k: usize = 0;
        proof {
            assert(acc == voices_mix(before, instruments@, now as int, 0));
        }
        while k < n
            invariant
                old_voices@ == before,
                n == before.len(),
                k <= n,
                bank_ok(instruments@),
                sample_rate > 0,
                acc.wf(),
                acc == voices_mix(before, instruments@, now as int, k as int),
                self.voices@.len() == live_count(before, instruments@, now as int, k as int),
                self.voices@.map_values(|v: Voice| voice_id(v)) == survivors(
                    before,
                    instruments@,
                    now as int,
                    k as int,
                ),
                self.wf(),
                self.chains == old(self).chains,
                self.position() == old(self).position(),
                self.mix_level == old(self).mix_level,
                self.meter == old(self).meter,
            decreases n - k,
        {
            let mut v = old_voices[k].clone_voice();
            let idx = v.instrument;
            if idx < instruments.len() {
                match &instruments[idx] {
                    Some(inst) => {
                        if inst.graph.operators.len() == v.phases.len() {
                            let ghost kept = self.voices@;
                            let (out, done) = v.render(inst, now, sample_rate, memo);
                            acc = acc.add(&out);
                            if !done {
                                self.voices.push(v);
                                proof {
                                    assert(self.voices@.map_values(|v: Voice| voice_id(v)) =~= kept.map_values(
                                        |v: Voice| voice_id(v),
                                    ).push(voice_id(before[k as int])));
                                }
                            }
                        }
                    },
                    None => {},
                }
            }
            k = k + 1;
        }
        let out = acc.scaled(self.mix_level);
        self.meter.push(out.dry);
        out
    }
}

impl Voice {
    /// A copy of the voice.
    pub fn clone_voice(&self) -> (v: Voice)
        ensures
            v.instrument == self.instrument,
            v.frequency == self.frequency,
            v.velocity == self.velocity,
            v.onset == self.onset,
            v.release == self.release,
            v.phases@ == self.phases@,
    {
        let mut phases: Vec<u32> = Vec::new();
        let mut k: usize = 0;
        while k < self.phases.len()
            invariant
                k <= self.phases@.len(),
                phases@ == self.phases@.subrange(0, k as int),
            decreases self.phases@.len() - k,
        {
            phases.push(self.phases[k]);
            k = k + 1;
            assert(phases@ =~= self.phases@.subrange(0, k as int));
        }
        assert(phases@ =~= self.phases@);
        Voice {
            instrument: self.instrument,
            frequency: self.frequency,
            velocity: self.velocity,
            onset: self.onset,
            release: self.release,
            phases,
        }
    }
}

} // verus!
