//! Effect buses: crossfading slots for swappable effect units, and the
//! routing of track sends through the chorus, delay and reverb buses into
//! the final stereo mix.
use vstd::prelude::*;

use crate::meter::{keep_last, Meter};
use crate::mix::{clip, gained, Frame, Sends, SAMPLE_LIMIT};
use crate::units::UNIT;

verus! {

/// A stereo-in, stereo-out effect, such as a reverb, a chorus or a delay.
pub trait EffectUnit {
    fn process(&mut self, input: Frame) -> Frame;
}

/// The effect that passes its input through unchanged.
#[derive(PartialEq, Eq, Structural, Clone, Copy, Debug)]
pub struct Passthrough;

impl EffectUnit for Passthrough {
    fn process(&mut self, input: Frame) -> Frame {
        input
    }
}

/// `f` with both channels limited to `SAMPLE_LIMIT`.
pub open spec fn clip_frame(f: Frame) -> Frame {
    Frame { left: clip(f.left as int) as i64, right: clip(f.right as int) as i64 }
}

/// Limits both channels of a frame to `SAMPLE_LIMIT`.
pub fn clip_exec(f: Frame) -> (r: Frame)
    ensures
        r == clip_frame(f),
        r.wf(),
{
    let l = if f.left > SAMPLE_LIMIT {
        SAMPLE_LIMIT
    } else if f.left < -SAMPLE_LIMIT {
        -SAMPLE_LIMIT
    } else {
        f.left
    };
    let r = if f.right > SAMPLE_LIMIT {
        SAMPLE_LIMIT
    } else if f.right < -SAMPLE_LIMIT {
        -SAMPLE_LIMIT
    } else {
        f.right
    };
    Frame { left: l, right: r }
}

/// Linear crossfade from `a` to `b` at `pos` out of `len`, rounded down.
pub open spec fn crossfade(a: int, b: int, pos: int, len: int) -> int {
    a + (b - a) * pos / len
}

/// Crossfade of two frames, channel by channel.
pub open spec fn crossfade_frame(a: Frame, b: Frame, pos: int, len: int) -> Frame {
    Frame {
        left: crossfade(a.left as int, b.left as int, pos, len) as i64,
        right: crossfade(a.right as int, b.right as int, pos, len) as i64,
    }
}

/// The smaller of two values.
pub open spec fn min_of(a: int, b: int) -> int {
    if a <= b {
        a
    } else {
        b
    }
}

/// The larger of two values.
pub open spec fn max_of(a: int, b: int) -> int {
    if a >= b {
        a
    } else {
        b
    }
}

/// A crossfade never leaves the range between the outgoing and the
/// incoming value, and it has reached the incoming value once the ramp is
/// complete: replacing an effect adds no jump of its own.
pub proof fn lemma_crossfade_between(a: int, b: int, pos: int, len: int)
    requires
        len > 0,
        0 <= pos <= len,
    ensures
        min_of(a, b) <= crossfade(a, b, pos, len) <= max_of(a, b),
        pos == len ==> crossfade(a, b, pos, len) == b,
        pos == 0 ==> crossfade(a, b, pos, len) == a,
{
    let d = b - a;
    if d >= 0 {
        assert(0 <= d * pos <= d * len) by (nonlinear_arith)
            requires
                d >= 0,
                0 <= pos <= len,
        ;
        vstd::arithmetic::div_mod::lemma_div_is_ordered(d * pos, d * len, len);
        vstd::arithmetic::div_mod::lemma_div_is_ordered(0, d * pos, len);
    } else {
        assert(d * len <= d * pos <= 0) by (nonlinear_arith)
            requires
                d < 0,
                0 <= pos <= len,
        ;
        vstd::arithmetic::div_mod::lemma_div_is_ordered(d * len, d * pos, len);
        vstd::arithmetic::div_mod::lemma_div_is_ordered(d * pos, 0, len);
    }
    vstd::arithmetic::div_mod::lemma_div_multiples_vanish(d, len);
    assert(d * len == len * d) by (nonlinear_arith);
    assert(d * 0 == 0);
}

/// `|x|`.
pub open spec fn magnitude(x: int) -> int {
    if x >= 0 {
        x
    } else {
        -x
    }
}

/// From one sample of a crossfade to the next (outputs `a0`, `b0` of the
/// outgoing and incoming units at step `k - 1`, then `a1`, `b1` at step
/// `k`), the output changes by less than the larger of the two units' own
/// changes, plus their gap at step `k - 1` spread over the ramp, plus one
/// for rounding. Scaled by the ramp length `len` to stay in integers.
pub proof fn lemma_crossfade_step_bound(a0: int, b0: int, a1: int, b1: int, k: int, len: int)
    requires
        len > 0,
        1 <= k <= len,
    ensures
        len * magnitude(crossfade(a1, b1, k, len) - crossfade(a0, b0, k - 1, len)) < len * max_of(
            magnitude(a1 - a0),
            magnitude(b1 - b0),
        ) + magnitude(b0 - a0) + len,
{
    let q1 = (b1 - a1) * k / len;
    let q0 = (b0 - a0) * (k - 1) / len;
    let r1 = (b1 - a1) * k % len;
    let r0 = (b0 - a0) * (k - 1) % len;
    vstd::arithmetic::div_mod::lemma_fundamental_div_mod((b1 - a1) * k, len);
    vstd::arithmetic::div_mod::lemma_fundamental_div_mod((b0 - a0) * (k - 1), len);
    let da = a1 - a0;
    let db = b1 - b0;
    let m = max_of(magnitude(da), magnitude(db));
    let step = crossfade(a1, b1, k, len) - crossfade(a0, b0, k - 1, len);
    assert(step == da + q1 - q0);
    assert(len * step == (len - k) * da + k * db + (b0 - a0) + (r0 - r1)) by (nonlinear_arith)
        requires
            step == da + q1 - q0,
            (b1 - a1) * k == len * q1 + r1,
            (b0 - a0) * (k - 1) == len * q0 + r0,
            da == a1 - a0,
            db == b1 - b0,
    ;
    assert(magnitude((len - k) * da + k * db) <= len * m) by (nonlinear_arith)
        requires
            0 <= k <= len,
            magnitude(da) <= m,
            magnitude(db) <= m,
            m >= 0,
            magnitude(da) == (if da >= 0 { da } else { -da }),
            magnitude(db) == (if db >= 0 { db } else { -db }),
            magnitude((len - k) * da + k * db) == (if (len - k) * da + k * db >= 0 {
                (len - k) * da + k * db
            } else {
                -((len - k) * da + k * db)
            }),
    ;
    assert(len * magnitude(step) == magnitude(len * step)) by (nonlinear_arith)
        requires
            len > 0,
            magnitude(step) == (if step >= 0 { step } else { -step }),
            magnitude(len * step) == (if len * step >= 0 { len * step } else { -(len * step) }),
    ;
}

fn crossfade_exec(a: i64, b: i64, pos: u64, len: u64) -> (r: i64)
    requires
        -SAMPLE_LIMIT <= a <= SAMPLE_LIMIT,
        -SAMPLE_LIMIT <= b <= SAMPLE_LIMIT,
        0 <= pos <= len,
        len > 0,
    ensures
        r == crossfade(a as int, b as int, pos as int, len as int),
        -SAMPLE_LIMIT <= r <= SAMPLE_LIMIT,
{
    proof {
        lemma_crossfade_between(a as int, b as int, pos as int, len as int);
        let d = b - a;
        assert(-2 * SAMPLE_LIMIT * u64::MAX <= d * pos <= 2 * SAMPLE_LIMIT * u64::MAX) by (nonlinear_arith)
            requires
                -2 * SAMPLE_LIMIT <= d <= 2 * SAMPLE_LIMIT,
                0 <= pos <= u64::MAX,
        ;
    }
    let d: i128 = (b as i128 - a as i128) * pos as i128;
    let l: i128 = len as i128;
    let q: i128 = if d >= 0 {
        d / l
    } else {
        let n: i128 = -(d + 1);
        proof {
            let nn = n as int;
            let ll = l as int;
            let qq = nn / ll;
            let rr = nn % ll;
            vstd::arithmetic::div_mod::lemma_fundamental_div_mod(nn, ll);
            assert(d as int == (-qq - 1) * ll + (ll - 1 - rr)) by (nonlinear_arith)
                requires
                    d as int == -nn - 1,
                    nn == ll * qq + rr,
            ;
            vstd::arithmetic::div_mod::lemma_fundamental_div_mod_converse(d as int, ll, -qq - 1, ll - 1 - rr);
            vstd::arithmetic::div_mod::lemma_div_pos_is_pos(nn, ll);
            vstd::arithmetic::div_mod::lemma_div_is_ordered_by_denominator(nn, 1, ll);
        }
        -(n / l) - 1
    };
    (a as i128 + q) as i64
}

/// Progress of a crossfade: `position` samples of `length` done.
#[derive(PartialEq, Eq, Structural, Clone, Copy, Debug)]
pub struct Fade {
    pub position: u64,
    pub length: u64,
}

impl Fade {
    pub open spec fn wf(self) -> bool {
        self.length > 0 && self.position < self.length
    }

    /// A fade over `length` samples (at least one), not yet begun.
    pub fn new(length: u64) -> (f: Fade)
        ensures
            f.wf(),
            f.position == 0,
            f.length == if length == 0 {
                1
            } else {
                length
            },
    {
        Fade { position: 0, length: if length == 0 { 1 } else { length } }
    }

    /// One crossfaded sample from the outgoing unit's output `old_out` to
    /// the incoming unit's output `new_out`. Returns the frame and whether
    /// the fade is complete.
    pub fn step(&mut self, old_out: Frame, new_out: Frame) -> (r: (Frame, bool))
        requires
            old(self).wf(),
        ensures
            r.0 == crossfade_frame(
                clip_frame(old_out),
                clip_frame(new_out),
                old(self).position + 1,
                old(self).length as int,
            ),
            r.0.wf(),
            r.1 <==> old(self).position + 1 == old(self).length,
            final(self).length == old(self).length,
            r.1 ==> final(self).position == 0,
            !r.1 ==> final(self).position == old(self).position + 1,
            final(self).wf(),
    {
        let a = clip_exec(old_out);
        let b = clip_exec(new_out);
        let pos = self.position + 1;
        let out = Frame {
            left: crossfade_exec(a.left, b.left, pos, self.length),
            right: crossfade_exec(a.right, b.right, pos, self.length),
        };
        if pos == self.length {
            self.position = 0;
            (out, true)
        } else {
            self.position = pos;
            (out, false)
        }
    }
}

/// A place for an effect unit that can be swapped while running: the new
/// unit fades in while the old one fades out, and both keep processing
/// during the fade, so the old unit's tail is heard.
pub struct Slot<E> {
    pub current: E,
    pub incoming: Option<E>,
    pub fade: Fade,
}

impl<E: EffectUnit> Slot<E> {
    pub open spec fn wf(self) -> bool {
        self.fade.wf()
    }

    /// A slot holding `unit`.
    pub fn new(unit: E) -> (s: Slot<E>)
        ensures
            s.wf(),
            s.incoming is None,
    {
        Slot { current: unit, incoming: None, fade: Fade::new(1) }
    }

    /// Whether a fade is in progress.
    pub fn is_fading(&self) -> (b: bool)
        ensures
            b == self.incoming is Some,
    {
        self.incoming.is_some()
    }

    /// Starts replacing the current unit with `unit` over `ramp` samples.
    /// A unit still fading in is made current first.
    pub fn replace(&mut self, unit: E, ramp: u64)
        requires
            old(self).wf(),
        ensures
            final(self).wf(),
            final(self).incoming == Some(unit),
            final(self).current == match old(self).incoming {
                Some(pending) => pending,
                None => old(self).current,
            },
            final(self).fade.position == 0,
            final(self).fade.length == if ramp == 0 {
                1
            } else {
                ramp
            },
    {
        let pending = self.incoming.take();
        match pending {
            Some(n) => {
                self.current = n;
            },
            None => {},
        }
        self.incoming = Some(unit);
        self.fade = Fade::new(ramp);
    }

    /// Processes one frame. While fading, both units process the input
    /// and their outputs are crossfaded; at the end of the fade the new
    /// unit becomes current and the old one is dropped.
    pub fn process(&mut self, input: Frame) -> (out: Frame)
        requires
            old(self).wf(),
        ensures
            final(self).wf(),
            out.wf(),
            old(self).incoming is None ==> final(self).incoming is None,
            old(self).incoming is Some && old(self).fade.position + 1 < old(self).fade.length
                ==> final(self).incoming is Some && final(self).fade.position == old(self).fade.position + 1,
            old(self).incoming is Some && old(self).fade.position + 1 == old(self).fade.length
                ==> final(self).incoming is None,
    {
        let a = self.current.process(input);
        match self.incoming.take() {
            None => clip_exec(a),
            Some(mut n) => {
                let b = n.process(input);
                let (out, finished) = self.fade.step(a, b);
                if finished {
                    self.current = n;
                } else {
                    self.incoming = Some(n);
                }
                out
            },
        }
    }
}

/// Levels of the effect buses, in millionths within full scale: each
/// bus's level in the final mix, and the chorus and delay feeds into the
/// reverb bus.
#[derive(PartialEq, Eq, Structural, Clone, Copy, Debug)]
pub struct BusLevels {
    pub chorus_mix: i64,
    pub delay_mix: i64,
    pub reverb_mix: i64,
    pub chorus_to_reverb: i64,
    pub delay_to_reverb: i64,
}

/// `g` is a level within `[0, UNIT]`.
pub open spec fn level_in_range(g: int) -> bool {
    0 <= g <= UNIT
}

/// Saturating sum of three frames, then a fourth.
pub open spec fn frame_sum(a: Frame, b: Frame) -> Frame {
    Frame { left: clip(a.left + b.left) as i64, right: clip(a.right + b.right) as i64 }
}

/// Frame `f` scaled by `g`.
pub open spec fn frame_scaled(g: int, f: Frame) -> Frame {
    Frame { left: gained(g, f.left as int) as i64, right: gained(g, f.right as int) as i64 }
}

impl BusLevels {
    pub open spec fn wf(self) -> bool {
        &&& level_in_range(self.chorus_mix as int)
        &&& level_in_range(self.delay_mix as int)
        &&& level_in_range(self.reverb_mix as int)
        &&& level_in_range(self.chorus_to_reverb as int)
        &&& level_in_range(self.delay_to_reverb as int)
    }

    /// Chorus and reverb in the mix at full level, delay and both feeds
    /// into the reverb off.
    pub fn new() -> (b: BusLevels)
        ensures
            b.wf(),
            b == (BusLevels {
                chorus_mix: UNIT,
                delay_mix: 0,
                reverb_mix: UNIT,
                chorus_to_reverb: 0,
                delay_to_reverb: 0,
            }),
    {
        BusLevels { chorus_mix: UNIT, delay_mix: 0, reverb_mix: UNIT, chorus_to_reverb: 0, delay_to_reverb: 0 }
    }

    /// Input of the reverb bus: the tracks' reverb sends plus the chorus
    /// and delay outputs scaled by their feeds.
    pub open spec fn reverb_input_of(self, sends: Frame, chorus_out: Frame, delay_out: Frame) -> Frame {
        frame_sum(
            frame_sum(sends, frame_scaled(self.chorus_to_reverb as int, chorus_out)),
            frame_scaled(self.delay_to_reverb as int, delay_out),
        )
    }

    /// Final stereo mix: the tracks' dry sum plus each bus output at its
    /// mix level.
    pub open spec fn output_of(self, dry: Frame, chorus_out: Frame, delay_out: Frame, reverb_out: Frame) -> Frame {
        frame_sum(
            frame_sum(
                frame_sum(dry, frame_scaled(self.chorus_mix as int, chorus_out)),
                frame_scaled(self.delay_mix as int, delay_out),
            ),
            frame_scaled(self.reverb_mix as int, reverb_out),
        )
    }

    /// Input of the reverb bus.
    pub fn reverb_input(&self, sends: Frame, chorus_out: Frame, delay_out: Frame) -> (f: Frame)
        requires
            self.wf(),
            sends.wf(),
            chorus_out.wf(),
            delay_out.wf(),
        ensures
            f == self.reverb_input_of(sends, chorus_out, delay_out),
            f.wf(),
    {
        let c = chorus_out.scaled(self.chorus_to_reverb);
        let d = delay_out.scaled(self.delay_to_reverb);
        let s = sends.add(&c);
        s.add(&d)
    }

    /// Final stereo mix.
    pub fn output(&self, dry: Frame, chorus_out: Frame, delay_out: Frame, reverb_out: Frame) -> (f: Frame)
        requires
            self.wf(),
            dry.wf(),
            chorus_out.wf(),
            delay_out.wf(),
            reverb_out.wf(),
        ensures
            f == self.output_of(dry, chorus_out, delay_out, reverb_out),
            f.wf(),
    {
        let c = chorus_out.scaled(self.chorus_mix);
        let d = delay_out.scaled(self.delay_mix);
        let r = reverb_out.scaled(self.reverb_mix);
        dry.add(&c).add(&d).add(&r)
    }
}

/// What the buses produced for one sample: each effect's output, the
/// frame fed to the reverb, and the final stereo mix.
#[derive(PartialEq, Eq, Structural, Clone, Copy, Debug)]
pub struct BusOutputs {
    pub chorus: Frame,
    pub delay: Frame,
    pub reverb_input: Frame,
    pub reverb: Frame,
    pub out: Frame,
}

/// The chorus, delay and reverb buses, each an effect slot, with metering
/// taps on the three bus outputs and on the final mix.
pub struct Buses<E> {
    pub chorus: Slot<E>,
    pub delay: Slot<E>,
    pub reverb: Slot<E>,
    pub chorus_meter: Meter,
    pub delay_meter: Meter,
    pub reverb_meter: Meter,
    pub out_meter: Meter,
}

impl<E: EffectUnit> Buses<E> {
    pub open spec fn wf(self) -> bool {
        &&& self.chorus.wf()
        &&& self.delay.wf()
        &&& self.reverb.wf()
        &&& self.chorus_meter.wf()
        &&& self.delay_meter.wf()
        &&& self.reverb_meter.wf()
        &&& self.out_meter.wf()
    }

    /// Buses holding the given units, with taps keeping `meter_capacity`
    /// frames each.
    pub fn new(chorus: E, delay: E, reverb: E, meter_capacity: usize) -> (b: Buses<E>)
        ensures
            b.wf(),
            b.out_meter.view().len() == 0,
    {
        Buses {
            chorus: Slot::new(chorus),
            delay: Slot::new(delay),
            reverb: Slot::new(reverb),
            chorus_meter: Meter::new(meter_capacity),
            delay_meter: Meter::new(meter_capacity),
            reverb_meter: Meter::new(meter_capacity),
            out_meter: Meter::new(meter_capacity),
        }
    }

    /// Routes one sample of summed track outputs: the chorus and delay
    /// sends go through their effects; the reverb takes the reverb sends
    /// plus the chorus and delay feeds; the final mix adds the dry sum and
    /// each bus at its level. Every tap records its frame.
    pub fn route(&mut self, levels: &BusLevels, sum: &Sends) -> (r: BusOutputs)
        requires
            old(self).wf(),
            levels.wf(),
            sum.wf(),
        ensures
            final(self).wf(),
            r.chorus.wf() && r.delay.wf() && r.reverb.wf() && r.out.wf(),
            r.reverb_input == levels.reverb_input_of(sum.reverb, r.chorus, r.delay),
            r.out == levels.output_of(sum.dry, r.chorus, r.delay, r.reverb),
            final(self).chorus_meter.view() == keep_last(
                old(self).chorus_meter.view().push(r.chorus),
                old(self).chorus_meter.capacity(),
            ),
            final(self).delay_meter.view() == keep_last(
                old(self).delay_meter.view().push(r.delay),
                old(self).delay_meter.capacity(),
            ),
            final(self).reverb_meter.view() == keep_last(
                old(self).reverb_meter.view().push(r.reverb),
                old(self).reverb_meter.capacity(),
            ),
            final(self).out_meter.view() == keep_last(
                old(self).out_meter.view().push(r.out),
                old(self).out_meter.capacity(),
            ),
    {
        let chorus = self.chorus.process(sum.chorus);
        let delay = self.delay.process(sum.delay);
        let reverb_in = levels.reverb_input(sum.reverb, chorus, delay);
        let reverb = self.reverb.process(reverb_in);
        let out = levels.output(sum.dry, chorus, delay, reverb);
        self.chorus_meter.push(chorus);
        self.delay_meter.push(delay);
        self.reverb_meter.push(reverb);
        self.out_meter.push(out);
        BusOutputs { chorus, delay, reverb_input: reverb_in, reverb, out }
    }
}

/// Saturating sum of the first `k` track outputs.
pub open spec fn sum_sends(sends: Seq<Sends>, k: int) -> Sends
    decreases k,
{
    if k <= 0 {
        Sends {
            dry: Frame { left: 0, right: 0 },
            chorus: Frame { left: 0, right: 0 },
            delay: Frame { left: 0, right: 0 },
            reverb: Frame { left: 0, right: 0 },
        }
    } else {
        crate::mix::sends_sum(sum_sends(sends, k - 1), sends[k - 1])
    }
}

/// Sums the outputs of all tracks, output by output.
pub fn sum_tracks(sends: &Vec<Sends>) -> (s: Sends)
    requires
        forall|i: int| 0 <= i < sends@.len() ==> (#[trigger] sends@[i]).wf(),
    ensures
        s == sum_sends(sends@, sends@.len() as int),
        s.wf(),
{
    let mut acc = Sends::silent();
    let mut k: usize = 0;
    while k < sends.len()
        invariant
            k <= sends@.len(),
            forall|i: int| 0 <= i < sends@.len() ==> (#[trigger] sends@[i]).wf(),
            acc == sum_sends(sends@, k as int),
            acc.wf(),
        decreases sends@.len() - k,
    {
        acc = acc.add(&sends[k]);
        k = k + 1;
    }
    acc
}

} // verus!
