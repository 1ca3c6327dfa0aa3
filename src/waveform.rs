//! Oscillator waveforms over a 32-bit phase, frequency modifiers and gains.
use vstd::prelude::*;

use crate::envelope::Envelope;
use crate::units::{floor_div, PHASE_CYCLE, UNIT};

verus! {

/// Half of a phase cycle.
pub const HALF_CYCLE: u64 = 2_147_483_648;

/// Microseconds times microhertz in one cycle: `t` microseconds at `f`
/// microhertz run through `t * f / CYCLE_SCALE` cycles.
pub const CYCLE_SCALE: u128 = 1_000_000_000_000;

/// Waveform of an oscillator; the pulse's duty cycle is in millionths of
/// a cycle.
#[derive(PartialEq, Eq, Structural, Clone, Copy, Debug)]
pub enum Waveform {
    Sine,
    Triangle,
    Saw,
    Square,
    Pulse { duty_cycle: u32 },
}

/// Value in millionths of waveform `w` at phase `p` (a fraction
/// `p / PHASE_CYCLE` of a cycle). The sine is the parabolic approximation
/// `4x(1-x)` on each half cycle; the saw is the fraction of the cycle
/// itself, rising from 0 towards full scale.
pub open spec fn wave_value(w: Waveform, p: int) -> int {
    let h = HALF_CYCLE as int;
    let c = PHASE_CYCLE as int;
    match w {
        Waveform::Sine => {
            if p < h {
                UNIT * 4 * p * (h - p) / (h * h)
            } else {
                -(UNIT * 4 * (p - h) * (c - p) / (h * h))
            }
        },
        Waveform::Triangle => {
            let d = if p < h {
                p
            } else {
                c - p
            };
            2 * UNIT * d / h - UNIT
        },
        Waveform::Saw => UNIT * p / c,
        Waveform::Square => if p > h {
            UNIT as int
        } else {
            -UNIT
        },
        Waveform::Pulse { duty_cycle } => if p * UNIT > duty_cycle * c {
            UNIT as int
        } else {
            -UNIT
        },
    }
}

/// Phase reached after `t` microseconds at `f` microhertz, starting from 0.
pub open spec fn phase_after(t: int, f: int) -> int {
    (t * f) % (CYCLE_SCALE as int) * (PHASE_CYCLE as int) / (CYCLE_SCALE as int)
}

proof fn lemma_scaled_fraction(x: int, d: int, n: int)
    requires
        0 <= x <= d,
        d > 0,
        n >= 0,
    ensures
        0 <= n * x / d <= n,
{
    assert(0 <= n * x <= n * d) by (nonlinear_arith)
        requires
            0 <= x <= d,
            n >= 0,
    ;
    vstd::arithmetic::div_mod::lemma_div_is_ordered(n * x, n * d, d);
    vstd::arithmetic::div_mod::lemma_div_by_multiple(n, d);
    vstd::arithmetic::div_mod::lemma_div_pos_is_pos(n * x, d);
}

impl Waveform {
    /// Value in millionths at phase `phase`.
    pub fn tick(&self, phase: u32) -> (r: i64)
        ensures
            r == wave_value(*self, phase as int),
            -UNIT <= r <= UNIT,
    {
        let p: u128 = phase as u128;
        let h: u128 = HALF_CYCLE as u128;
        let c: u128 = PHASE_CYCLE as u128;
        let unit: u128 = UNIT as u128;
        match self {
            Waveform::Sine => {
                if p < h {
                    proof {
                        assert(4 * p * (h - p) <= h * h) by (nonlinear_arith)
                            requires
                                p < h,
                        ;
                        lemma_scaled_fraction((4 * p * (h - p)) as int, (h * h) as int, UNIT as int);
                        assert(unit * 4 * p * (h - p) == unit * (4 * p * (h - p))) by (nonlinear_arith);
                        assert(unit * (4 * p * (h - p)) <= unit * (h * h)) by (nonlinear_arith)
                            requires
                                4 * p * (h - p) <= h * h,
                        ;
                    }
                    let q: u128 = 4 * p * (h - p);
                    (unit * q / (h * h)) as i64
                } else {
                    proof {
                        assert(4 * (p - h) * (c - p) <= h * h) by (nonlinear_arith)
                            requires
                                h <= p < c,
                                c == 2 * h,
                        ;
                        lemma_scaled_fraction(
                            (4 * (p - h) * (c - p)) as int,
                            (h * h) as int,
                            UNIT as int,
                        );
                        assert(unit * 4 * (p - h) * (c - p) == unit * (4 * (p - h) * (c - p)))
                            by (nonlinear_arith);
                        assert(unit * (4 * (p - h) * (c - p)) <= unit * (h * h)) by (nonlinear_arith)
                            requires
                                4 * (p - h) * (c - p) <= h * h,
                        ;
                    }
                    let q: u128 = 4 * (p - h) * (c - p);
                    -((unit * q / (h * h)) as i64)
                }
            },
            Waveform::Triangle => {
                let d: u128 = if p < h {
                    p
                } else {
                    c - p
                };
                proof {
                    lemma_scaled_fraction(d as int, h as int, 2 * UNIT);
                    assert(2 * unit * d == (2 * UNIT) * d);
                }
                (2 * unit * d / h) as i64 - UNIT
            },
            Waveform::Saw => {
                proof {
                    lemma_scaled_fraction(p as int, c as int, UNIT as int);
                }
                (unit * p / c) as i64
            },
            Waveform::Square => {
                if p > h {
                    UNIT
                } else {
                    -UNIT
                }
            },
            Waveform::Pulse { duty_cycle } => {
                if p * unit > (*duty_cycle as u128) * c {
                    UNIT
                } else {
                    -UNIT
                }
            },
        }
    }
}

/// How an oscillator derives its frequency from the note's frequency:
/// a factor in thousandths, a shift in microhertz, a fixed frequency in
/// microhertz, or the note's own.
#[derive(PartialEq, Eq, Structural, Clone, Copy, Debug)]
pub enum FrequencyModifier {
    Factor(u32),
    Shift(i64),
    Fixed(u64),
    Unchanged,
}

/// `x` limited to the range of `u64`.
pub open spec fn clamp_frequency(x: int) -> int {
    if x < 0 {
        0
    } else if x > u64::MAX {
        u64::MAX as int
    } else {
        x
    }
}

/// Frequency in microhertz that modifier `m` gives for the note frequency
/// `f`, limited to the range of `u64`.
pub open spec fn modified_frequency(m: FrequencyModifier, f: int) -> int {
    match m {
        FrequencyModifier::Factor(k) => clamp_frequency(f * k / 1000),
        FrequencyModifier::Shift(d) => clamp_frequency(f + d),
        FrequencyModifier::Fixed(x) => x as int,
        FrequencyModifier::Unchanged => f,
    }
}

impl FrequencyModifier {
    /// Applies the modifier to the note frequency `frequency` (microhertz).
    pub fn apply(&self, frequency: u64) -> (r: u64)
        ensures
            r == modified_frequency(*self, frequency as int),
    {
        match self {
            FrequencyModifier::Factor(k) => {
                proof {
                    assert(frequency * (*k as int) <= u64::MAX * u32::MAX) by (nonlinear_arith);
                }
                let x: u128 = frequency as u128 * *k as u128 / 1000;
                if x > u64::MAX as u128 {
                    u64::MAX
                } else {
                    x as u64
                }
            },
            FrequencyModifier::Shift(d) => {
                let x: i128 = frequency as i128 + *d as i128;
                if x < 0 {
                    0
                } else if x > u64::MAX as i128 {
                    u64::MAX
                } else {
                    x as u64
                }
            },
            FrequencyModifier::Fixed(x) => *x,
            FrequencyModifier::Unchanged => frequency,
        }
    }
}

/// A low-frequency oscillator used as a gain: waveform and frequency in
/// microhertz, running from the note onset.
#[derive(PartialEq, Eq, Structural, Clone, Copy, Debug)]
pub struct Lfo {
    pub waveform: Waveform,
    pub frequency: u64,
}

impl Lfo {
    /// Value in millionths `t` microseconds after onset.
    pub open spec fn level_at(self, t: int) -> int {
        wave_value(self.waveform, phase_after(t, self.frequency as int))
    }

    /// Value in millionths `t` microseconds after onset.
    pub fn level(&self, t: u64) -> (r: i64)
        ensures
            r == self.level_at(t as int),
            -UNIT <= r <= UNIT,
    {
        proof {
            assert(t * self.frequency <= u64::MAX * u64::MAX) by (nonlinear_arith);
        }
        let cycles: u128 = t as u128 * self.frequency as u128;
        let frac: u128 = cycles % CYCLE_SCALE;
        proof {
            assert(frac * PHASE_CYCLE < CYCLE_SCALE * PHASE_CYCLE) by (nonlinear_arith)
                requires
                    frac < CYCLE_SCALE,
            ;
            vstd::arithmetic::div_mod::lemma_div_is_ordered(
                (frac * PHASE_CYCLE) as int,
                (CYCLE_SCALE * PHASE_CYCLE) as int,
                CYCLE_SCALE as int,
            );
            vstd::arithmetic::div_mod::lemma_div_by_multiple(
                PHASE_CYCLE as int,
                CYCLE_SCALE as int,
            );
            vstd::arithmetic::div_mod::lemma_div_is_ordered_by_denominator(
                (frac * PHASE_CYCLE) as int,
                CYCLE_SCALE as int,
                CYCLE_SCALE as int,
            );
            assert((frac as int * PHASE_CYCLE as int) / (CYCLE_SCALE as int) < PHASE_CYCLE as int) by (nonlinear_arith)
                requires
                    frac < CYCLE_SCALE,
                    CYCLE_SCALE > 0,
            ;
        }
        let phase: u128 = frac * (PHASE_CYCLE as u128) / CYCLE_SCALE;
        self.waveform.tick(phase as u32)
    }
}

/// Gain of an operator: a constant in millionths (within full scale), an
/// envelope, or a low-frequency oscillator.
#[derive(PartialEq, Eq, Structural, Clone, Copy, Debug)]
pub enum Gain {
    Const(i64),
    Envelope(Envelope),
    Lfo(Lfo),
}

/// `r` as a mathematical optional value.
pub open spec fn opt_int(r: Option<u64>) -> Option<int> {
    match r {
        None => None,
        Some(x) => Some(x as int),
    }
}

impl Gain {
    /// A constant gain lies within full scale; an envelope is well formed.
    pub open spec fn wf(self) -> bool {
        match self {
            Gain::Const(v) => -UNIT <= v <= UNIT,
            Gain::Envelope(e) => e.wf(),
            Gain::Lfo(_) => true,
        }
    }

    /// Gain in millionths `t` microseconds after onset, `r` after release.
    pub open spec fn level_at(self, t: int, r: Option<int>) -> int {
        match self {
            Gain::Const(v) => v as int,
            Gain::Envelope(e) => e.level_at(t, r),
            Gain::Lfo(l) => l.level_at(t),
        }
    }

    /// The gain has finished: an envelope once its release is over, any
    /// other gain as soon as the key has been released.
    pub open spec fn done_at(self, r: Option<int>) -> bool {
        match self {
            Gain::Envelope(e) => e.done_at(r),
            _ => match r {
                None => false,
                Some(x) => x > 0,
            },
        }
    }

    /// Checks the well-formedness condition.
    pub fn is_valid(&self) -> (b: bool)
        ensures
            b == self.wf(),
    {
        match self {
            Gain::Const(v) => -UNIT <= *v && *v <= UNIT,
            Gain::Envelope(e) => e.start_level <= 1_000_000 && e.sustained_level <= 1_000_000,
            Gain::Lfo(_) => true,
        }
    }

    /// Gain in millionths.
    pub fn level(&self, t: u64, r: Option<u64>) -> (g: i64)
        requires
            self.wf(),
        ensures
            g == self.level_at(t as int, opt_int(r)),
            -UNIT <= g <= UNIT,
    {
        match self {
            Gain::Const(v) => *v,
            Gain::Envelope(e) => e.level(t, r) as i64,
            Gain::Lfo(l) => l.level(t),
        }
    }

    /// Whether the gain has finished.
    pub fn done(&self, r: Option<u64>) -> (d: bool)
        ensures
            d == self.done_at(opt_int(r)),
    {
        match self {
            Gain::Envelope(e) => e.done(r),
            _ => match r {
                None => false,
                Some(x) => x > 0,
            },
        }
    }
}

/// Product of a gain and a waveform value, both in millionths, rounded down.
pub open spec fn scale(g: int, w: int) -> int {
    g * w / (UNIT as int)
}

/// Multiplies two values in millionths, rounding down.
pub fn scale_exec(g: i64, w: i64) -> (r: i64)
    requires
        -UNIT <= g <= UNIT,
        -UNIT <= w <= UNIT,
    ensures
        r == scale(g as int, w as int),
        -UNIT <= r <= UNIT,
{
    proof {
        assert(-UNIT * UNIT <= g * w <= UNIT * UNIT) by (nonlinear_arith)
            requires
                -UNIT <= g <= UNIT,
                -UNIT <= w <= UNIT,
        ;
        vstd::arithmetic::div_mod::lemma_div_is_ordered(g * w, UNIT * UNIT, UNIT as int);
        vstd::arithmetic::div_mod::lemma_div_is_ordered(-UNIT * UNIT, g * w, UNIT as int);
        vstd::arithmetic::div_mod::lemma_div_by_multiple(UNIT as int, UNIT as int);
        vstd::arithmetic::div_mod::lemma_div_multiples_vanish(-UNIT as int, UNIT as int);
        assert(-UNIT * UNIT == UNIT * (-UNIT));
    }
    floor_div(g * w, UNIT)
}

} // verus!
