//! Pitches as an octave and a semitone offset from A, with transposition.
use vstd::prelude::*;
use vstd::string::StringExecFns;

use crate::keyboard::InputMessage;
use crate::units::{lemma_two_pow_40, lemma_two_pow_monotone, lemma_two_pow_positive, two_pow};

verus! {

/// A pitch: `semitone` counts from A of the same octave and lies in
/// `[-9, 2]` (C up to B); octave 4 holds A at 440 Hz.
#[derive(PartialEq, Eq, Structural, Clone, Copy, Debug, Hash)]
pub struct Tone {
    pub octave: i32,
    pub semitone: i32,
}

/// Frequency in microhertz of the semitone `s` (in `[-9, 2]`) of octave 4,
/// `440 000 000 * 2^(s/12)` rounded to the nearest microhertz.
pub open spec fn base_microhertz(s: int) -> nat {
    if s == -9 {
        261625565
    } else if s == -8 {
        277182631
    } else if s == -7 {
        293664768
    } else if s == -6 {
        311126984
    } else if s == -5 {
        329627557
    } else if s == -4 {
        349228231
    } else if s == -3 {
        369994423
    } else if s == -2 {
        391995436
    } else if s == -1 {
        415304698
    } else if s == 0 {
        440000000
    } else if s == 1 {
        466163762
    } else {
        493883301
    }
}

/// Frequency in microhertz of the semitone `s` of octave `o`: octave 4
/// from the table, doubled for each octave above and halved (rounding down)
/// for each octave below.
pub open spec fn microhertz_of(o: int, s: int) -> nat {
    if o >= 4 {
        base_microhertz(s) * two_pow((o - 4) as nat)
    } else {
        base_microhertz(s) / two_pow((4 - o) as nat)
    }
}

/// Two-character name of a semitone: note letter, then `#` or `-`.
pub open spec fn semitone_name(s: int) -> Seq<char> {
    if s == 0 {
        seq!['A', '-']
    } else if s == 1 {
        seq!['A', '#']
    } else if s == 2 {
        seq!['B', '-']
    } else if s == -9 {
        seq!['C', '-']
    } else if s == -8 {
        seq!['C', '#']
    } else if s == -7 {
        seq!['D', '-']
    } else if s == -6 {
        seq!['D', '#']
    } else if s == -5 {
        seq!['E', '-']
    } else if s == -4 {
        seq!['F', '-']
    } else if s == -3 {
        seq!['F', '#']
    } else if s == -2 {
        seq!['G', '-']
    } else {
        seq!['G', '#']
    }
}

/// The decimal digit for `d` in `[0, 9]`.
pub open spec fn digit_char(d: nat) -> char {
    if d == 0 {
        '0'
    } else if d == 1 {
        '1'
    } else if d == 2 {
        '2'
    } else if d == 3 {
        '3'
    } else if d == 4 {
        '4'
    } else if d == 5 {
        '5'
    } else if d == 6 {
        '6'
    } else if d == 7 {
        '7'
    } else if d == 8 {
        '8'
    } else {
        '9'
    }
}

/// Decimal digits of `n`, most significant first, without leading zeros.
pub open spec fn decimal(n: nat) -> Seq<char>
    decreases n,
{
    if n < 10 {
        seq![digit_char(n)]
    } else {
        decimal(n / 10).push(digit_char(n % 10))
    }
}

/// Decimal text of a signed integer, with a leading `-` when negative.
pub open spec fn signed_decimal(n: int) -> Seq<char> {
    if n < 0 {
        seq!['-'] + decimal((-n) as nat)
    } else {
        decimal(n as nat)
    }
}

fn push_digit(s: &mut String, d: u32)
    requires
        d < 10,
    ensures
        final(s)@ == old(s)@.push(digit_char(d as nat)),
{
    proof {
        reveal_strlit("0");
        reveal_strlit("1");
        reveal_strlit("2");
        reveal_strlit("3");
        reveal_strlit("4");
        reveal_strlit("5");
        reveal_strlit("6");
        reveal_strlit("7");
        reveal_strlit("8");
        reveal_strlit("9");
    }
    let old_s = Ghost(s@);
    if d == 0 {
        s.append("0");
    } else if d == 1 {
        s.append("1");
    } else if d == 2 {
        s.append("2");
    } else if d == 3 {
        s.append("3");
    } else if d == 4 {
        s.append("4");
    } else if d == 5 {
        s.append("5");
    } else if d == 6 {
        s.append("6");
    } else if d == 7 {
        s.append("7");
    } else if d == 8 {
        s.append("8");
    } else {
        s.append("9");
    }
    assert(s@ =~= old_s@.push(digit_char(d as nat)));
}

/// Appends the decimal digits of `n` to `s`.
fn append_decimal(s: &mut String, n: u32)
    ensures
        final(s)@ == old(s)@ + decimal(n as nat),
    decreases n,
{
    if n < 10 {
        push_digit(s, n);
        assert(decimal(n as nat) == seq![digit_char(n as nat)]);
        assert(final(s)@ =~= old(s)@ + decimal(n as nat));
    } else {
        append_decimal(s, n / 10);
        push_digit(s, n % 10);
        assert(s@ =~= old(s)@ + decimal(n as nat));
    }
}

proof fn lemma_double_fits(base: nat, k: nat)
    requires
        base <= 493883301,
        k < 35,
    ensures
        2 * (base * two_pow(k)) < 0x1_0000_0000_0000_0000,
        2 * (base * two_pow(k)) == base * two_pow(k + 1),
{
    lemma_two_pow_monotone(k, 34);
    lemma_two_pow_40();
    let p = two_pow(k);
    assert(two_pow(k + 1) == 2 * p);
    assert(2 * (base * p) < 0x1_0000_0000_0000_0000) by (nonlinear_arith)
        requires
            base <= 493883301,
            p <= 17179869184,
    ;
    assert(2 * (base * p) == base * (2 * p)) by (nonlinear_arith);
}

impl Tone {
    /// The tone is well formed: its semitone lies in `[-9, 2]`.
    pub open spec fn wf(self) -> bool {
        -9 <= self.semitone <= 2
    }

    /// Distance in semitones from A of octave 4.
    pub open spec fn offset(self) -> int {
        (self.octave - 4) * 12 + self.semitone
    }

    /// Text label of the tone: semitone name followed by the octave number.
    pub open spec fn label(self) -> Seq<char> {
        semitone_name(self.semitone as int) + signed_decimal(self.octave as int)
    }

    /// A of octave 4.
    pub fn a4() -> (r: Tone)
        ensures
            r.wf(),
            r.octave == 4 && r.semitone == 0,
    {
        Tone { octave: 4, semitone: 0 }
    }

    /// Distance in semitones from A of octave 4.
    pub fn semitone_offset(&self) -> (r: i64)
        ensures
            r == self.offset(),
    {
        (self.octave as i64 - 4) * 12 + self.semitone as i64
    }

    /// The tone `n` semitones higher; the semitone wraps within its range
    /// and carries into the octave.
    pub fn up(&self, n: u32) -> (r: Tone)
        requires
            self.wf(),
            self.offset() + n <= (i32::MAX - 4) * 12 + 2,
        ensures
            r.wf(),
            r.offset() == self.offset() + n,
    {
        let carry: i32 = (n / 12) as i32;
        let rem: i32 = (n % 12) as i32;
        let s = self.semitone + rem;
        if s > 2 {
            Tone { octave: self.octave + carry + 1, semitone: s - 12 }
        } else {
            Tone { octave: self.octave + carry, semitone: s }
        }
    }

    /// The tone `n` semitones lower; the semitone wraps within its range
    /// and borrows from the octave.
    pub fn down(&self, n: u32) -> (r: Tone)
        requires
            self.wf(),
            self.offset() - n >= (i32::MIN - 4) * 12 - 9,
        ensures
            r.wf(),
            r.offset() == self.offset() - n,
    {
        let borrow: i32 = (n / 12) as i32;
        let rem: i32 = (n % 12) as i32;
        let s = self.semitone - rem;
        if s < -9 {
            Tone { octave: self.octave - borrow - 1, semitone: s + 12 }
        } else {
            Tone { octave: self.octave - borrow, semitone: s }
        }
    }

    /// Frequency in microhertz (440 000 000 for A of octave 4). Below
    /// octave 4 each halving rounds down, which stays within one
    /// microhertz: see `lemma_low_octave_precision`.
    pub fn frequency_microhertz(&self) -> (r: u64)
        requires
            self.wf(),
            self.octave <= 39,
        ensures
            r == microhertz_of(self.octave as int, self.semitone as int),
    {
        let base: u64 = match self.semitone {
            -9 => 261625565,
            -8 => 277182631,
            -7 => 293664768,
            -6 => 311126984,
            -5 => 329627557,
            -4 => 349228231,
            -3 => 369994423,
            -2 => 391995436,
            -1 => 415304698,
            0 => 440000000,
            1 => 466163762,
            _ => 493883301,
        };
        assert(base == base_microhertz(self.semitone as int));
        if self.octave >= 4 {
            let shift: u32 = (self.octave - 4) as u32;
            let mut f: u64 = base;
            let mut k: u32 = 0;
            assert(two_pow(0) == 1);
            while k < shift
                invariant
                    k <= shift <= 35,
                    f == base * two_pow(k as nat),
                    base <= 493883301,
                decreases shift - k,
            {
                proof {
                    lemma_double_fits(base as nat, k as nat);
                }
                f = f * 2;
                k = k + 1;
            }
            f
        } else {
            let full: i64 = 4 - self.octave as i64;
            let shift: u32 = if full > 30 { 30 } else { full as u32 };
            let mut f: u64 = base;
            let mut k: u32 = 0;
            assert(two_pow(0) == 1);
            assert((base as nat) / 1 == base);
            while k < shift
                invariant
                    k <= shift <= 30,
                    f == (base as nat) / two_pow(k as nat),
                decreases shift - k,
            {
                proof {
                    lemma_two_pow_positive(k as nat);
                    vstd::arithmetic::div_mod::lemma_div_denominator(
                        base as int,
                        two_pow(k as nat) as int,
                        2,
                    );
                    assert(two_pow((k + 1) as nat) == two_pow(k as nat) * 2);
                }
                f = f / 2;
                k = k + 1;
            }
            proof {
                if full > 30 {
                    lemma_two_pow_monotone(30, full as nat);
                    lemma_two_pow_40();
                    assert((base as nat) / two_pow(30) == 0) by (nonlinear_arith)
                        requires
                            base <= 493883301,
                            two_pow(30) == 1073741824,
                    ;
                    vstd::arithmetic::div_mod::lemma_basic_div(
                        base as int,
                        two_pow(full as nat) as int,
                    );
                }
            }
            f
        }
    }

    /// Text label of the tone, such as `A-4` or `C#-1`.
    pub fn get_string(&self) -> (r: String)
        ensures
            r@ == self.label(),
    {
        let mut s = match self.semitone {
            0 => String::from_str("A-"),
            1 => String::from_str("A#"),
            2 => String::from_str("B-"),
            -9 => String::from_str("C-"),
            -8 => String::from_str("C#"),
            -7 => String::from_str("D-"),
            -6 => String::from_str("D#"),
            -5 => String::from_str("E-"),
            -4 => String::from_str("F-"),
            -3 => String::from_str("F#"),
            -2 => String::from_str("G-"),
            _ => String::from_str("G#"),
        };
        proof {
            reveal_strlit("A-");
            reveal_strlit("A#");
            reveal_strlit("B-");
            reveal_strlit("C-");
            reveal_strlit("C#");
            reveal_strlit("D-");
            reveal_strlit("D#");
            reveal_strlit("E-");
            reveal_strlit("F-");
            reveal_strlit("F#");
            reveal_strlit("G-");
            reveal_strlit("G#");
            reveal_strlit("-");
        }
        assert(s@ =~= semitone_name(self.semitone as int));
        if self.octave < 0 {
            s.append("-");
            let mag: u32 = if self.octave == i32::MIN {
                2147483648u32
            } else {
                (-self.octave) as u32
            };
            append_decimal(&mut s, mag);
        } else {
            append_decimal(&mut s, self.octave as u32);
        }
        assert(s@ =~= self.label());
        s
    }
}

/// Moves an edited tone `n` semitones up; an empty entry becomes A of
/// octave 4.
pub fn semitone_up(tone: &mut Option<Tone>, n: u32)
    requires
        match *old(tone) {
            Some(t) => t.wf() && t.offset() + n <= (i32::MAX - 4) * 12 + 2,
            None => true,
        },
    ensures
        match *old(tone) {
            Some(t) => {
                &&& *final(tone) is Some
                &&& (*final(tone))->0.wf()
                &&& (*final(tone))->0.offset() == t.offset() + n
            },
            None => *final(tone) == Some(Tone { octave: 4, semitone: 0 }),
        },
{
    match *tone {
        Some(t) => {
            *tone = Some(t.up(n));
        },
        None => {
            *tone = Some(Tone::a4());
        },
    }
}

/// Moves an edited tone `n` semitones down; an empty entry becomes A of
/// octave 4.
pub fn semitone_down(tone: &mut Option<Tone>, n: u32)
    requires
        match *old(tone) {
            Some(t) => t.wf() && t.offset() - n >= (i32::MIN - 4) * 12 - 9,
            None => true,
        },
    ensures
        match *old(tone) {
            Some(t) => {
                &&& *final(tone) is Some
                &&& (*final(tone))->0.wf()
                &&& (*final(tone))->0.offset() == t.offset() - n
            },
            None => *final(tone) == Some(Tone { octave: 4, semitone: 0 }),
        },
{
    match *tone {
        Some(t) => {
            *tone = Some(t.down(n));
        },
        None => {
            *tone = Some(Tone::a4());
        },
    }
}

/// Applies an editing message to a tone entry: right and left move one
/// semitone, up and down one octave, clear empties the entry; other
/// messages leave it. Returns whether the message was handled.
pub fn edit_tone(tone: &mut Option<Tone>, msg: InputMessage) -> (handled: bool)
    requires
        match *old(tone) {
            Some(t) => t.wf() && -1_000_000 <= t.octave <= 1_000_000,
            None => true,
        },
    ensures
        handled <==> (msg == InputMessage::EditRight || msg == InputMessage::EditLeft || msg
            == InputMessage::EditUp || msg == InputMessage::EditDown || msg == InputMessage::Clear),
        !handled ==> *final(tone) == *old(tone),
        msg == InputMessage::Clear ==> *final(tone) is None,
        (msg == InputMessage::EditRight || msg == InputMessage::EditLeft || msg == InputMessage::EditUp
            || msg == InputMessage::EditDown) && *old(tone) is None ==> *final(tone) == Some(
            Tone { octave: 4, semitone: 0 },
        ),
        ({
            let delta: int = if msg == InputMessage::EditRight {
                1
            } else if msg == InputMessage::EditLeft {
                -1
            } else if msg == InputMessage::EditUp {
                12
            } else {
                -12
            };
            (msg == InputMessage::EditRight || msg == InputMessage::EditLeft || msg
                == InputMessage::EditUp || msg == InputMessage::EditDown) && *old(tone) is Some ==> {
                &&& *final(tone) is Some
                &&& (*final(tone))->0.wf()
                &&& (*final(tone))->0.offset() == (*old(tone))->0.offset() + delta
            }
        }),
{
    match msg {
        InputMessage::EditRight => {
            semitone_up(tone, 1);
            true
        },
        InputMessage::EditLeft => {
            semitone_down(tone, 1);
            true
        },
        InputMessage::EditUp => {
            semitone_up(tone, 12);
            true
        },
        InputMessage::EditDown => {
            semitone_down(tone, 12);
            true
        },
        InputMessage::Clear => {
            *tone = None;
            true
        },
        _ => false,
    }
}

/// Below octave 4, down to octave -10, the rounded halvings lose less than
/// one ten-thousandth of the exact value `base / 2^(4 - o)`.
pub proof fn lemma_low_octave_precision(o: int, s: int)
    requires
        -9 <= s <= 2,
        -10 <= o < 4,
    ensures
        ({
            let d = two_pow((4 - o) as nat);
            let b = base_microhertz(s);
            let f = microhertz_of(o, s);
            &&& f * d <= b < (f + 1) * d
            &&& 10_000 * (b - f * d) < b
        }),
{
    let k = (4 - o) as nat;
    let d = two_pow(k);
    let b = base_microhertz(s);
    lemma_two_pow_positive(k);
    lemma_two_pow_monotone(k, 14);
    lemma_two_pow_40();
    assert(two_pow(4) == 16) by {
        reveal_with_fuel(two_pow, 5);
    }
    crate::units::lemma_two_pow_add(10, 4);
    assert(two_pow(14) == two_pow(10) * two_pow(4));
    vstd::arithmetic::div_mod::lemma_fundamental_div_mod(b as int, d as int);
    let f = b / d;
    assert(f * d <= b < (f + 1) * d) by (nonlinear_arith)
        requires
            b == d * f + b % d,
            0 <= b % d < d,
    ;
    assert(10_000 * (b - f * d) < b) by (nonlinear_arith)
        requires
            b - f * d < d,
            d <= 16384,
            b >= 261625565,
    ;
}

/// Moving a tone up by twelve semitones keeps its semitone and raises its
/// octave by one; the frequency doubles exactly from octave 4 upwards, and
/// below it the halving rounds down so the doubled value is at most one
/// microhertz short.
pub proof fn lemma_octave_up_doubles(a: Tone, b: Tone)
    requires
        a.wf(),
        b.wf(),
        b.offset() == a.offset() + 12,
    ensures
        b.octave == a.octave + 1,
        b.semitone == a.semitone,
        a.octave >= 4 ==> microhertz_of(b.octave as int, b.semitone as int) == 2
            * microhertz_of(a.octave as int, a.semitone as int),
        0 <= microhertz_of(b.octave as int, b.semitone as int) - 2 * microhertz_of(
            a.octave as int,
            a.semitone as int,
        ) <= 1,
{
    assert(b.octave == a.octave + 1 && b.semitone == a.semitone);
    let base = base_microhertz(a.semitone as int);
    if a.octave >= 4 {
        let k = (a.octave - 4) as nat;
        assert(two_pow(k + 1) == 2 * two_pow(k));
        assert(base * two_pow(k + 1) == 2 * (base * two_pow(k))) by (nonlinear_arith)
            requires
                two_pow(k + 1) == 2 * two_pow(k),
        ;
    } else {
        let k = (4 - a.octave) as nat;
        lemma_two_pow_positive((k - 1) as nat);
        let d = two_pow((k - 1) as nat);
        assert(two_pow(k) == d * 2);
        vstd::arithmetic::div_mod::lemma_div_denominator(base as int, d as int, 2);
        let q = base / d;
        assert(base / two_pow(k) == q / 2);
        vstd::arithmetic::div_mod::lemma_fundamental_div_mod(q as int, 2);
        if a.octave == 3 {
            assert(two_pow(0) == 1);
            assert(d == 1);
            assert(microhertz_of(b.octave as int, b.semitone as int) == base);
            assert(base / 1 == base);
        } else {
            assert(microhertz_of(b.octave as int, b.semitone as int) == q);
        }
        assert(microhertz_of(a.octave as int, a.semitone as int) == q / 2);
    }
}

} // verus!
