//! Attack / decay / sustain / release gain curve over time since note onset.
use vstd::prelude::*;

use crate::units::UNIT;

verus! {

/// Linear interpolation from `a` to `b` at fraction `n / d`, rounding
/// toward `a`.
pub open spec fn interpolate(a: int, b: int, n: int, d: int) -> int {
    if b >= a {
        a + (b - a) * n / d
    } else {
        a - (a - b) * n / d
    }
}

/// An envelope: durations in microseconds, levels in millionths.
#[derive(PartialEq, Eq, Structural, Clone, Copy, Debug)]
pub struct Envelope {
    pub attack: u64,
    pub decay: u64,
    pub release: u64,
    pub start_level: u32,
    pub sustained_level: u32,
}

impl Envelope {
    /// Both levels lie within full scale.
    pub open spec fn wf(self) -> bool {
        self.start_level <= UNIT && self.sustained_level <= UNIT
    }

    /// Level while the key is held, `t` microseconds after onset: a ramp
    /// from zero up to `start_level` over `attack`, then a ramp to
    /// `sustained_level` over `decay`, then `sustained_level`.
    pub open spec fn held_level(self, t: int) -> int {
        if t < self.attack {
            self.start_level * t / (self.attack as int)
        } else if t < self.attack + self.decay {
            interpolate(
                self.start_level as int,
                self.sustained_level as int,
                t - self.attack,
                self.decay as int,
            )
        } else {
            self.sustained_level as int
        }
    }

    /// Level `t` microseconds after onset; `r` is the time since release,
    /// if the key was released. After a release the level falls linearly
    /// from the level reached at the moment of release down to zero over
    /// `release`.
    pub open spec fn level_at(self, t: int, r: Option<int>) -> int {
        match r {
            None => self.held_level(t),
            Some(r) => {
                if r >= self.release {
                    0
                } else {
                    let at_release = if r <= t {
                        t - r
                    } else {
                        0
                    };
                    self.held_level(at_release) * (self.release - r) / (self.release as int)
                }
            },
        }
    }

    /// The envelope has finished: it was released more than `release` ago.
    pub open spec fn done_at(self, r: Option<int>) -> bool {
        match r {
            None => false,
            Some(r) => r > self.release,
        }
    }

    /// Builds an envelope.
    pub fn new(attack: u64, decay: u64, release: u64, start_level: u32, sustained_level: u32) -> (r:
        Envelope)
        requires
            start_level <= UNIT,
            sustained_level <= UNIT,
        ensures
            r.wf(),
            r == (Envelope { attack, decay, release, start_level, sustained_level }),
    {
        Envelope { attack, decay, release, start_level, sustained_level }
    }

    fn held(&self, t: u64) -> (r: u32)
        requires
            self.wf(),
        ensures
            r == self.held_level(t as int),
            r <= UNIT,
    {
        if t < self.attack {
            proof {
                lemma_product_fits(self.start_level as nat, t as nat);
            }
            let num: u128 = self.start_level as u128 * t as u128;
            proof {
                assert(num <= self.start_level * self.attack) by (nonlinear_arith)
                    requires
                        num == self.start_level * t,
                        t < self.attack,
                ;
                vstd::arithmetic::div_mod::lemma_div_is_ordered(
                    num as int,
                    (self.start_level * self.attack) as int,
                    self.attack as int,
                );
                vstd::arithmetic::div_mod::lemma_div_by_multiple(
                    self.start_level as int,
                    self.attack as int,
                );
            }
            (num / self.attack as u128) as u32
        } else if t - self.attack < self.decay {
            let n: u128 = (t - self.attack) as u128;
            let a: u128 = self.start_level as u128;
            let b: u128 = self.sustained_level as u128;
            let d: u128 = self.decay as u128;
            if b >= a {
                proof {
                    lemma_product_fits((b - a) as nat, n as nat);
                }
                let step: u128 = (b - a) * n / d;
                proof {
                    lemma_fraction_below((b - a) as nat, n as nat, d as nat);
                }
                (a + step) as u32
            } else {
                proof {
                    lemma_product_fits((a - b) as nat, n as nat);
                }
                let step: u128 = (a - b) * n / d;
                proof {
                    lemma_fraction_below((a - b) as nat, n as nat, d as nat);
                }
                (a - step) as u32
            }
        } else {
            self.sustained_level
        }
    }

    /// Level in millionths, `t` microseconds after onset, with `r` the
    /// time since release if the key was released.
    pub fn level(&self, t: u64, r: Option<u64>) -> (l: u32)
        requires
            self.wf(),
        ensures
            l == self.level_at(
                t as int,
                match r {
                    None => None,
                    Some(x) => Some(x as int),
                },
            ),
            l <= UNIT,
    {
        match r {
            None => self.held(t),
            Some(r) => {
                if r >= self.release {
                    0
                } else {
                    let at_release: u64 = if r <= t {
                        t - r
                    } else {
                        0
                    };
                    let h: u128 = self.held(at_release) as u128;
                    let left: u128 = (self.release - r) as u128;
                    proof {
                        lemma_fraction_below(h as nat, left as nat, self.release as nat);
                        lemma_product_fits(h as nat, left as nat);
                    }
                    (h * left / self.release as u128) as u32
                }
            },
        }
    }

    /// Whether the envelope has finished: released more than `release` ago.
    pub fn done(&self, r: Option<u64>) -> (d: bool)
        ensures
            d == self.done_at(
                match r {
                    None => None,
                    Some(x) => Some(x as int),
                },
            ),
    {
        match r {
            None => false,
            Some(r) => r > self.release,
        }
    }
}

proof fn lemma_product_fits(a: nat, b: nat)
    requires
        a <= UNIT,
        b <= u64::MAX,
    ensures
        a * b <= u128::MAX,
{
    assert(a * b <= UNIT * u64::MAX) by (nonlinear_arith)
        requires
            a <= UNIT,
            b <= u64::MAX,
    ;
}

/// `x * n / d` is at most `x` when `n <= d`.
pub proof fn lemma_fraction_below(x: nat, n: nat, d: nat)
    requires
        n <= d,
        d > 0,
    ensures
        x * n / d <= x,
{
    assert(x * n <= x * d) by (nonlinear_arith)
        requires
            n <= d,
    ;
    vstd::arithmetic::div_mod::lemma_div_is_ordered((x * n) as int, (x * d) as int, d as int);
    vstd::arithmetic::div_mod::lemma_div_by_multiple(x as int, d as int);
}

/// While the key is held and after a release, the level stays within
/// full scale; once released, the level never rises as the release time
/// grows, and it is zero from `release` on.
pub proof fn lemma_release_falls(e: Envelope, t1: int, r1: int, t2: int, r2: int)
    requires
        e.wf(),
        0 <= r1,
        r1 <= t1,
        r2 <= t2,
        t1 - r1 == t2 - r2,
        r1 <= r2,
    ensures
        e.level_at(t2, Some(r2)) <= e.level_at(t1, Some(r1)),
        r2 >= e.release ==> e.level_at(t2, Some(r2)) == 0,
        0 <= e.level_at(t1, Some(r1)) <= UNIT,
{
    let h = e.held_level(t1 - r1);
    lemma_held_bounded(e, t1 - r1);
    if r2 < e.release {
        let d = e.release as int;
        assert(0 <= h * (e.release - r2) <= h * (e.release - r1)) by (nonlinear_arith)
            requires
                r1 <= r2,
                r2 < e.release,
                h >= 0,
        ;
        vstd::arithmetic::div_mod::lemma_div_is_ordered(
            h * (e.release - r2),
            h * (e.release - r1),
            d,
        );
        lemma_fraction_below(h as nat, (e.release - r1) as nat, d as nat);
        vstd::arithmetic::div_mod::lemma_div_pos_is_pos(h * (e.release - r2), d);
    } else if r1 < e.release {
        lemma_fraction_below(h as nat, (e.release - r1) as nat, e.release as nat);
        assert(0 <= h * (e.release - r1)) by (nonlinear_arith)
            requires
                r1 < e.release,
                h >= 0,
        ;
        vstd::arithmetic::div_mod::lemma_div_pos_is_pos(h * (e.release - r1), e.release as int);
    }
}

proof fn lemma_held_bounded(e: Envelope, t: int)
    requires
        e.wf(),
        t >= 0,
    ensures
        0 <= e.held_level(t) <= UNIT,
{
    if t < e.attack {
        lemma_fraction_below(e.start_level as nat, t as nat, e.attack as nat);
        assert(0 <= e.start_level * t) by (nonlinear_arith)
            requires
                t >= 0,
        ;
        vstd::arithmetic::div_mod::lemma_div_pos_is_pos(e.start_level * t, e.attack as int);
    } else if t < e.attack + e.decay {
        let a = e.start_level as int;
        let b = e.sustained_level as int;
        let n = t - e.attack;
        let d = e.decay as int;
        if b >= a {
            lemma_fraction_below((b - a) as nat, n as nat, d as nat);
            assert(0 <= (b - a) * n) by (nonlinear_arith)
                requires
                    b >= a,
                    n >= 0,
            ;
            vstd::arithmetic::div_mod::lemma_div_pos_is_pos((b - a) * n, d);
        } else {
            lemma_fraction_below((a - b) as nat, n as nat, d as nat);
        }
    }
}

} // verus!
