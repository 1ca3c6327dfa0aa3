//! Stereo frames and the saturating arithmetic used to mix them.
use vstd::prelude::*;

use crate::units::{floor_div, UNIT};

verus! {

/// Largest magnitude of a mixed sample; sums saturate there.
pub const SAMPLE_LIMIT: i64 = 1_099_511_627_776;

/// `x` limited to `[-SAMPLE_LIMIT, SAMPLE_LIMIT]`.
pub open spec fn clip(x: int) -> int {
    if x > SAMPLE_LIMIT {
        SAMPLE_LIMIT as int
    } else if x < -SAMPLE_LIMIT {
        -SAMPLE_LIMIT
    } else {
        x
    }
}

/// `x` scaled by the gain `g` (millionths), rounded down.
pub open spec fn gained(g: int, x: int) -> int {
    g * x / (UNIT as int)
}

/// Adds two samples, saturating at `SAMPLE_LIMIT`.
pub fn add_clipped(a: i64, b: i64) -> (r: i64)
    requires
        -SAMPLE_LIMIT <= a <= SAMPLE_LIMIT,
        -SAMPLE_LIMIT <= b <= SAMPLE_LIMIT,
    ensures
        r == clip(a + b),
        -SAMPLE_LIMIT <= r <= SAMPLE_LIMIT,
{
    let s = a + b;
    if s > SAMPLE_LIMIT {
        SAMPLE_LIMIT
    } else if s < -SAMPLE_LIMIT {
        -SAMPLE_LIMIT
    } else {
        s
    }
}

/// Scales a sample by a gain within full scale, rounding down.
pub fn apply_gain(g: i64, x: i64) -> (r: i64)
    requires
        -UNIT <= g <= UNIT,
        -SAMPLE_LIMIT <= x <= SAMPLE_LIMIT,
    ensures
        r == gained(g as int, x as int),
        -SAMPLE_LIMIT <= r <= SAMPLE_LIMIT,
{
    proof {
        lemma_gained_bounded(g as int, x as int);
        assert(-UNIT * SAMPLE_LIMIT <= g * x <= UNIT * SAMPLE_LIMIT) by (nonlinear_arith)
            requires
                -UNIT <= g <= UNIT,
                -SAMPLE_LIMIT <= x <= SAMPLE_LIMIT,
        ;
    }
    floor_div(g * x, UNIT)
}

pub proof fn lemma_gained_bounded(g: int, x: int)
    requires
        -UNIT <= g <= UNIT,
        -SAMPLE_LIMIT <= x <= SAMPLE_LIMIT,
    ensures
        -SAMPLE_LIMIT <= gained(g, x) <= SAMPLE_LIMIT,
{
    assert(-UNIT * SAMPLE_LIMIT <= g * x <= UNIT * SAMPLE_LIMIT) by (nonlinear_arith)
        requires
            -UNIT <= g <= UNIT,
            -SAMPLE_LIMIT <= x <= SAMPLE_LIMIT,
    ;
    vstd::arithmetic::div_mod::lemma_div_is_ordered(g * x, UNIT * SAMPLE_LIMIT, UNIT as int);
    vstd::arithmetic::div_mod::lemma_div_is_ordered(-UNIT * SAMPLE_LIMIT, g * x, UNIT as int);
    vstd::arithmetic::div_mod::lemma_div_multiples_vanish(SAMPLE_LIMIT as int, UNIT as int);
    vstd::arithmetic::div_mod::lemma_div_multiples_vanish(-SAMPLE_LIMIT as int, UNIT as int);
    assert(UNIT * SAMPLE_LIMIT == UNIT * (SAMPLE_LIMIT as int));
    assert(-UNIT * SAMPLE_LIMIT == UNIT * (-SAMPLE_LIMIT as int));
}

/// One stereo sample.
#[derive(PartialEq, Eq, Structural, Clone, Copy, Debug)]
pub struct Frame {
    pub left: i64,
    pub right: i64,
}

/// The four stereo outputs of a voice or a track: dry, and one send to
/// each effect bus.
#[derive(PartialEq, Eq, Structural, Clone, Copy, Debug)]
pub struct Sends {
    pub dry: Frame,
    pub chorus: Frame,
    pub delay: Frame,
    pub reverb: Frame,
}

impl Frame {
    /// Both channels lie within `SAMPLE_LIMIT`.
    pub open spec fn wf(self) -> bool {
        -SAMPLE_LIMIT <= self.left <= SAMPLE_LIMIT && -SAMPLE_LIMIT <= self.right <= SAMPLE_LIMIT
    }

    /// Silence.
    pub fn silent() -> (f: Frame)
        ensures
            f == (Frame { left: 0, right: 0 }),
            f.wf(),
    {
        Frame { left: 0, right: 0 }
    }

    /// Channel-wise saturating sum.
    pub fn add(&self, other: &Frame) -> (f: Frame)
        requires
            self.wf(),
            other.wf(),
        ensures
            f.left == clip(self.left + other.left),
            f.right == clip(self.right + other.right),
            f.wf(),
    {
        Frame {
            left: add_clipped(self.left, other.left),
            right: add_clipped(self.right, other.right),
        }
    }

    /// Both channels scaled by the gain `g`.
    pub fn scaled(&self, g: i64) -> (f: Frame)
        requires
            self.wf(),
            -UNIT <= g <= UNIT,
        ensures
            f.left == gained(g as int, self.left as int),
            f.right == gained(g as int, self.right as int),
            f.wf(),
    {
        Frame { left: apply_gain(g, self.left), right: apply_gain(g, self.right) }
    }
}

/// Output-wise saturating sum of two sends.
pub open spec fn sends_sum(a: Sends, b: Sends) -> Sends {
    Sends {
        dry: Frame { left: clip(a.dry.left + b.dry.left) as i64, right: clip(a.dry.right + b.dry.right) as i64 },
        chorus: Frame {
            left: clip(a.chorus.left + b.chorus.left) as i64,
            right: clip(a.chorus.right + b.chorus.right) as i64,
        },
        delay: Frame {
            left: clip(a.delay.left + b.delay.left) as i64,
            right: clip(a.delay.right + b.delay.right) as i64,
        },
        reverb: Frame {
            left: clip(a.reverb.left + b.reverb.left) as i64,
            right: clip(a.reverb.right + b.reverb.right) as i64,
        },
    }
}

/// Every output of `s` scaled by the gain `g`.
pub open spec fn sends_gained(g: int, s: Sends) -> Sends {
    Sends {
        dry: Frame { left: gained(g, s.dry.left as int) as i64, right: gained(g, s.dry.right as int) as i64 },
        chorus: Frame {
            left: gained(g, s.chorus.left as int) as i64,
            right: gained(g, s.chorus.right as int) as i64,
        },
        delay: Frame {
            left: gained(g, s.delay.left as int) as i64,
            right: gained(g, s.delay.right as int) as i64,
        },
        reverb: Frame {
            left: gained(g, s.reverb.left as int) as i64,
            right: gained(g, s.reverb.right as int) as i64,
        },
    }
}

impl Sends {
    /// All four outputs silent.
    pub open spec fn silence() -> Sends {
        Sends {
            dry: Frame { left: 0, right: 0 },
            chorus: Frame { left: 0, right: 0 },
            delay: Frame { left: 0, right: 0 },
            reverb: Frame { left: 0, right: 0 },
        }
    }

    /// Every frame lies within `SAMPLE_LIMIT`.
    pub open spec fn wf(self) -> bool {
        self.dry.wf() && self.chorus.wf() && self.delay.wf() && self.reverb.wf()
    }

    /// All four outputs silent.
    pub fn silent() -> (s: Sends)
        ensures
            s.wf(),
            s.dry == (Frame { left: 0, right: 0 }),
            s.chorus == s.dry && s.delay == s.dry && s.reverb == s.dry,
    {
        Sends {
            dry: Frame::silent(),
            chorus: Frame::silent(),
            delay: Frame::silent(),
            reverb: Frame::silent(),
        }
    }

    /// Output-wise saturating sum.
    pub fn add(&self, other: &Sends) -> (s: Sends)
        requires
            self.wf(),
            other.wf(),
        ensures
            s.wf(),
            s == sends_sum(*self, *other),
            s.dry.left == clip(self.dry.left + other.dry.left),
            s.dry.right == clip(self.dry.right + other.dry.right),
            s.chorus.left == clip(self.chorus.left + other.chorus.left),
            s.chorus.right == clip(self.chorus.right + other.chorus.right),
            s.delay.left == clip(self.delay.left + other.delay.left),
            s.delay.right == clip(self.delay.right + other.delay.right),
            s.reverb.left == clip(self.reverb.left + other.reverb.left),
            s.reverb.right == clip(self.reverb.right + other.reverb.right),
    {
        Sends {
            dry: self.dry.add(&other.dry),
            chorus: self.chorus.add(&other.chorus),
            delay: self.delay.add(&other.delay),
            reverb: self.reverb.add(&other.reverb),
        }
    }

    /// All four outputs scaled by the gain `g`.
    pub fn scaled(&self, g: i64) -> (s: Sends)
        requires
            self.wf(),
            -UNIT <= g <= UNIT,
        ensures
            s.wf(),
            s == sends_gained(g as int, *self),
            s.dry.left == gained(g as int, self.dry.left as int),
            s.dry.right == gained(g as int, self.dry.right as int),
            s.chorus.left == gained(g as int, self.chorus.left as int),
            s.chorus.right == gained(g as int, self.chorus.right as int),
            s.delay.left == gained(g as int, self.delay.left as int),
            s.delay.right == gained(g as int, self.delay.right as int),
            s.reverb.left == gained(g as int, self.reverb.left as int),
            s.reverb.right == gained(g as int, self.reverb.right as int),
    {
        Sends {
            dry: self.dry.scaled(g),
            chorus: self.chorus.scaled(g),
            delay: self.delay.scaled(g),
            reverb: self.reverb.scaled(g),
        }
    }
}

} // verus!
