//! The global step clock: elapsed wall time becomes ticks (24 per beat)
//! and every sixth tick fires a step.
use vstd::prelude::*;

verus! {

/// Ticks per beat.
pub const TICKS_PER_BEAT: u64 = 24;

/// Ticks per step.
pub const TICKS_PER_STEP: u32 = 6;

/// One tick lasts `TICK_SCALE / (bpm * TICKS_PER_BEAT)` microseconds.
pub const TICK_SCALE: u64 = 60_000_000;

/// Ceiling of `a / b` for positive `b`.
pub open spec fn ceil_div(a: int, b: int) -> int {
    (a + b - 1) / b
}

/// The tick clock. Time is in microseconds; `acc` is the part of a tick
/// already elapsed, in units of `1 / (bpm * TICKS_PER_BEAT)` microseconds
/// (so below `TICK_SCALE`); `remaining_ticks` counts down to the next step.
#[derive(PartialEq, Eq, Structural, Clone, Copy, Debug)]
pub struct Transport {
    pub bpm: u32,
    pub acc: u64,
    pub tick_count: u64,
    pub remaining_ticks: u32,
    pub playing: bool,
    pub last_update: Option<u64>,
}

impl Transport {
    /// The tempo is positive, the partial tick below one tick, and the
    /// countdown within one step.
    pub open spec fn wf(self) -> bool {
        &&& self.bpm > 0
        &&& self.acc < TICK_SCALE
        &&& 1 <= self.remaining_ticks <= TICKS_PER_STEP
    }

    /// Tick units per microsecond at this tempo.
    pub open spec fn rate(self) -> int {
        self.bpm * TICKS_PER_BEAT
    }

    /// Elapsed time since the last update, or zero.
    pub open spec fn elapsed(self, now: int) -> int {
        match self.last_update {
            Some(last) => if now >= last {
                now - last
            } else {
                0
            },
            None => 0,
        }
    }

    /// Tick units accumulated by `now`.
    pub open spec fn total(self, now: int) -> int {
        self.acc + self.elapsed(now) * self.rate()
    }

    /// Whole ticks that elapse by `now` while playing.
    pub open spec fn ticks(self, now: int) -> int {
        if self.playing && self.last_update is Some {
            self.total(now) / (TICK_SCALE as int)
        } else {
            0
        }
    }

    /// Steps fired by `now`: one each time the countdown reaches zero.
    pub open spec fn steps(self, now: int) -> int {
        (TICKS_PER_STEP - self.remaining_ticks + self.ticks(now)) / (TICKS_PER_STEP as int)
    }

    /// Number (from 1) of the tick that fires the `j`-th step (from 0).
    pub open spec fn step_tick(self, j: int) -> int {
        TICKS_PER_STEP * j + self.remaining_ticks
    }

    /// Time at which tick `m` (from 1) of this update elapses: when the
    /// accumulated tick units reach `m` whole ticks.
    pub open spec fn tick_time(self, m: int) -> int {
        match self.last_update {
            Some(last) => last + ceil_div(m * TICK_SCALE - self.acc, self.rate()),
            None => 0,
        }
    }

    /// A stopped clock at `bpm` beats per minute, with a full step to go.
    pub fn new(bpm: u32) -> (t: Transport)
        requires
            bpm > 0,
        ensures
            t.wf(),
            t == (Transport {
                bpm,
                acc: 0,
                tick_count: 0,
                remaining_ticks: TICKS_PER_STEP,
                playing: false,
                last_update: None,
            }),
    {
        Transport {
            bpm,
            acc: 0,
            tick_count: 0,
            remaining_ticks: TICKS_PER_STEP,
            playing: false,
            last_update: None,
        }
    }

    /// Sets the tempo; the partial tick carries over.
    pub fn set_bpm(&mut self, bpm: u32)
        requires
            bpm > 0,
        ensures
            *final(self) == (Transport { bpm, ..*old(self) }),
    {
        self.bpm = bpm;
    }

    /// Starts or stops the clock. Stopping keeps the position; while
    /// stopped, updates only move the time base.
    pub fn set_playing(&mut self, playing: bool)
        ensures
            *final(self) == (Transport { playing, ..*old(self) }),
    {
        self.playing = playing;
    }

    /// Starts playing with `now` as the time base, so that the first tick
    /// falls one tick after `now`.
    pub fn start(&mut self, now: u64)
        ensures
            *final(self) == (Transport { playing: true, last_update: Some(now), ..*old(self) }),
    {
        self.playing = true;
        self.last_update = Some(now);
    }

    /// Moves the clock to `now` (microseconds). Returns the times at which
    /// steps fired since the last update, in order. While stopped, or on
    /// the first update, nothing fires and only the time base moves.
    pub fn advance(&mut self, now: u64) -> (fired: Vec<u64>)
        requires
            old(self).wf(),
        ensures
            final(self).wf(),
            final(self).bpm == old(self).bpm,
            final(self).playing == old(self).playing,
            final(self).last_update == Some(now),
            final(self).acc == if old(self).playing && old(self).last_update is Some {
                old(self).total(now as int) % (TICK_SCALE as int)
            } else {
                old(self).acc as int
            },
            final(self).tick_count == (old(self).tick_count + old(self).ticks(now as int)) % (
            u64::MAX + 1),
            final(self).remaining_ticks == TICKS_PER_STEP - (TICKS_PER_STEP
                - old(self).remaining_ticks + old(self).ticks(now as int)) % (TICKS_PER_STEP as int),
            fired@.len() == old(self).steps(now as int),
            forall|j: int|
                0 <= j < fired@.len() ==> #[trigger] fired@[j] == old(self).tick_time(
                    old(self).step_tick(j),
                ),
    {
        let ghost pre = *self;
        let mut fired: Vec<u64> = Vec::new();
        if !self.playing || self.last_update.is_none() {
            self.last_update = Some(now);
            proof {
                assert(pre.ticks(now as int) == 0);
                assert(TICKS_PER_STEP - pre.remaining_ticks + 0 < 6);
                assert((TICKS_PER_STEP - pre.remaining_ticks + 0) / 6 == 0);
                assert((TICKS_PER_STEP - pre.remaining_ticks) % 6 == TICKS_PER_STEP - pre.remaining_ticks);
            }
            return fired;
        }
        let last = self.last_update.unwrap();
        let elapsed: u64 = if now >= last {
            now - last
        } else {
            0
        };
        let rate: u128 = self.bpm as u128 * TICKS_PER_BEAT as u128;
        proof {
            assert(elapsed * rate <= u64::MAX * (u32::MAX * 24)) by (nonlinear_arith)
                requires
                    rate <= u32::MAX * 24,
                    elapsed <= u64::MAX,
            ;
        }
        let total: u128 = self.acc as u128 + elapsed as u128 * rate;
        let ticks: u128 = total / TICK_SCALE as u128;
        let phase: u128 = (TICKS_PER_STEP - self.remaining_ticks) as u128 + ticks;
        let steps: u128 = phase / TICKS_PER_STEP as u128;
        assert(ticks == pre.ticks(now as int));
        let rem: u32 = self.remaining_ticks;
        let acc: u64 = self.acc;
        let mut j: u128 = 0;
        while j < steps
            invariant
                rem == pre.remaining_ticks,
                acc == pre.acc,
                pre.wf(),
                pre.playing,
                pre.last_update == Some(last),
                rate == pre.rate(),
                total == pre.total(now as int),
                ticks == pre.ticks(now as int),
                steps == pre.steps(now as int),
                elapsed == pre.elapsed(now as int),
                last + elapsed <= u64::MAX,
                rate <= u32::MAX * 24,
                elapsed * rate <= u64::MAX * (u32::MAX * 24),
                j <= steps,
                fired@.len() == j,
                forall|i: int| 0 <= i < j ==> #[trigger] fired@[i] == pre.tick_time(pre.step_tick(i)),
            decreases steps - j,
        {
            let m: u128 = TICKS_PER_STEP as u128 * j + rem as u128;
            proof {
                lemma_step_tick_within(pre, now as int, j as int);
            }
            let units: u128 = m * TICK_SCALE as u128 - acc as u128;
            let wait: u128 = (units + rate - 1) / rate;
            proof {
                lemma_wait_within(units as int, rate as int, elapsed as int, total as int, acc as int, m as int);
            }
            fired.push(last + wait as u64);
            j = j + 1;
        }
        self.acc = (total % TICK_SCALE as u128) as u64;
        self.tick_count = ((self.tick_count as u128 + ticks) % 18446744073709551616u128) as u64;
        self.remaining_ticks = TICKS_PER_STEP - (phase % TICKS_PER_STEP as u128) as u32;
        self.last_update = Some(now);
        fired
    }
}

proof fn lemma_step_tick_within(t: Transport, now: int, j: int)
    requires
        t.wf(),
        0 <= j < t.steps(now),
        t.ticks(now) >= 0,
    ensures
        1 <= t.step_tick(j) <= t.ticks(now),
{
    let p = TICKS_PER_STEP - t.remaining_ticks + t.ticks(now);
    assert(6 * (p / 6) <= p) by (nonlinear_arith)
        requires
            p >= 0,
    ;
    assert(6 * j + 6 <= 6 * (p / 6)) by (nonlinear_arith)
        requires
            j + 1 <= p / 6,
    ;
}

proof fn lemma_wait_within(units: int, rate: int, elapsed: int, total: int, acc: int, m: int)
    requires
        rate > 0,
        0 <= acc < TICK_SCALE,
        elapsed >= 0,
        total == acc + elapsed * rate,
        1 <= m <= total / (TICK_SCALE as int),
        units == m * TICK_SCALE - acc,
    ensures
        0 <= (units + rate - 1) / rate <= elapsed,
        0 <= units <= elapsed * rate,
{
    assert(m * TICK_SCALE <= total) by (nonlinear_arith)
        requires
            m <= total / (TICK_SCALE as int),
            total >= 0,
    ;
    assert(units + rate - 1 < (elapsed + 1) * rate) by (nonlinear_arith)
        requires
            units <= elapsed * rate,
    ;
    vstd::arithmetic::div_mod::lemma_div_is_ordered(0, units + rate - 1, rate);
    assert((units + rate - 1) / rate < elapsed + 1) by (nonlinear_arith)
        requires
            units + rate - 1 < (elapsed + 1) * rate,
            rate > 0,
            units + rate - 1 >= 0,
    ;
}

/// At 120 beats per minute a tick lasts 1/48 s, and from a fresh start
/// one step (six ticks, 125 000 microseconds) fires exactly one step, at
/// the end of that time.
pub proof fn lemma_one_step_at_120_bpm(t: Transport, start: int)
    requires
        t.wf(),
        t.bpm == 120,
        t.acc == 0,
        t.remaining_ticks == TICKS_PER_STEP,
        t.playing,
        t.last_update == Some(start as u64),
        0 <= start <= u64::MAX - 125_000,
    ensures
        t.rate() * 20_833 < TICK_SCALE < t.rate() * 20_834,
        t.ticks(start + 125_000) == 6,
        t.steps(start + 125_000) == 1,
        t.tick_time(t.step_tick(0)) == start + 125_000,
{
    assert(t.total(start + 125_000) == 360_000_000);
}

/// At 120 beats per minute, from a fresh start, 25 steps' worth of time
/// (3.125 s) fires exactly 25 steps, and the fourth step after the start
/// fires half a second in.
pub proof fn lemma_25_steps_at_120_bpm(t: Transport, start: int)
    requires
        t.wf(),
        t.bpm == 120,
        t.acc == 0,
        t.remaining_ticks == TICKS_PER_STEP,
        t.playing,
        t.last_update == Some(start as u64),
        0 <= start <= u64::MAX - 3_125_000,
    ensures
        t.steps(start + 3_125_000) == 25,
        t.tick_time(t.step_tick(3)) == start + 500_000,
{
    assert(t.total(start + 3_125_000) == 9_000_000_000);
    assert(t.step_tick(3) == 24);
}

} // verus!
