//! Pattern store: steps, phrases of sixteen steps, chains of phrases.
use vstd::prelude::*;

use crate::tone::Tone;

verus! {

/// Steps in a phrase.
pub const PHRASE_LENGTH: usize = 16;

/// Phrase slots in a chain.
pub const CHAIN_LENGTH: usize = 16;

/// Chain slots in a track.
pub const TRACK_CHAIN_SLOTS: usize = 256;

/// Phrases, and chains, in the store.
pub const BANK_SIZE: usize = 256;

/// One note event: a tone, the index of an instrument, a velocity.
#[derive(PartialEq, Eq, Structural, Clone, Copy, Debug)]
pub struct Step {
    pub tone: Tone,
    pub instrument: usize,
    pub velocity: u8,
}

/// A phrase: `PHRASE_LENGTH` optional steps.
#[derive(Clone, Debug)]
pub struct Phrase {
    pub steps: Vec<Option<Step>>,
}

/// A chain: `CHAIN_LENGTH` optional phrase indices.
#[derive(Clone, Debug)]
pub struct Chain {
    pub phrases: Vec<Option<usize>>,
}

/// `n` empty slots.
fn empty_slots<T>(n: usize) -> (v: Vec<Option<T>>)
    ensures
        v@.len() == n,
        forall|i: int| 0 <= i < n ==> v@[i] is None,
{
    let mut v: Vec<Option<T>> = Vec::new();
    let mut k: usize = 0;
    while k < n
        invariant
            k <= n,
            v@.len() == k,
            forall|i: int| 0 <= i < k ==> v@[i] is None,
        decreases n - k,
    {
        v.push(None);
        k = k + 1;
    }
    v
}

/// Entry `i` of `s`, or `None` when `i` is out of range.
pub open spec fn slot<T>(s: Seq<Option<T>>, i: int) -> Option<T> {
    if 0 <= i < s.len() {
        s[i]
    } else {
        None
    }
}

/// Reads entry `i` of `v`; out-of-range reads give `None`.
pub fn read_slot<T: Copy>(v: &Vec<Option<T>>, i: usize) -> (r: Option<T>)
    ensures
        r == slot(v@, i as int),
{
    if i < v.len() {
        v[i]
    } else {
        None
    }
}

impl Phrase {
    /// A phrase of empty steps.
    pub fn new() -> (p: Phrase)
        ensures
            p.steps@.len() == PHRASE_LENGTH,
            forall|i: int| 0 <= i < PHRASE_LENGTH ==> p.steps@[i] is None,
    {
        Phrase { steps: empty_slots(PHRASE_LENGTH) }
    }

    /// The step at `index`, or `None` when empty or out of range.
    pub fn step(&self, index: usize) -> (r: Option<Step>)
        ensures
            r == slot(self.steps@, index as int),
    {
        read_slot(&self.steps, index)
    }

    /// Writes the step at `index`; out-of-range writes are ignored.
    pub fn set_step(&mut self, index: usize, step: Option<Step>)
        ensures
            final(self).steps@ == if index < old(self).steps@.len() {
                old(self).steps@.update(index as int, step)
            } else {
                old(self).steps@
            },
    {
        if index < self.steps.len() {
            self.steps.set(index, step);
        }
    }
}

impl Chain {
    /// A chain of empty phrase slots.
    pub fn new() -> (c: Chain)
        ensures
            c.phrases@.len() == CHAIN_LENGTH,
            forall|i: int| 0 <= i < CHAIN_LENGTH ==> c.phrases@[i] is None,
    {
        Chain { phrases: empty_slots(CHAIN_LENGTH) }
    }

    /// Writes the phrase index at `index`; out-of-range writes are ignored.
    pub fn set_phrase(&mut self, index: usize, phrase: Option<usize>)
        ensures
            final(self).phrases@ == if index < old(self).phrases@.len() {
                old(self).phrases@.update(index as int, phrase)
            } else {
                old(self).phrases@
            },
    {
        if index < self.phrases.len() {
            self.phrases.set(index, phrase);
        }
    }
}

/// The step a cursor designates: the track's chain slot names a chain,
/// whose phrase slot names a phrase, whose step slot holds the step. Any
/// empty or out-of-range link gives `None`.
pub open spec fn lookup_step(
    track_chains: Seq<Option<usize>>,
    chains: Seq<Option<Chain>>,
    phrases: Seq<Option<Phrase>>,
    chain_cursor: int,
    phrase_cursor: int,
    step_cursor: int,
) -> Option<Step> {
    match slot(track_chains, chain_cursor) {
        None => None,
        Some(c) => match slot(chains, c as int) {
            None => None,
            Some(chain) => match slot(chain.phrases@, phrase_cursor) {
                None => None,
                Some(p) => match slot(phrases, p as int) {
                    None => None,
                    Some(phrase) => slot(phrase.steps@, step_cursor),
                },
            },
        },
    }
}

/// Exec form of `lookup_step`.
pub fn find_step(
    track_chains: &Vec<Option<usize>>,
    chains: &Vec<Option<Chain>>,
    phrases: &Vec<Option<Phrase>>,
    chain_cursor: usize,
    phrase_cursor: usize,
    step_cursor: usize,
) -> (r: Option<Step>)
    ensures
        r == lookup_step(
            track_chains@,
            chains@,
            phrases@,
            chain_cursor as int,
            phrase_cursor as int,
            step_cursor as int,
        ),
{
    let c = read_slot(track_chains, chain_cursor);
    match c {
        None => None,
        Some(c) => {
            if c >= chains.len() {
                return None;
            }
            match &chains[c] {
                None => None,
                Some(chain) => {
                    let p = read_slot(&chain.phrases, phrase_cursor);
                    match p {
                        None => None,
                        Some(p) => {
                            if p >= phrases.len() {
                                return None;
                            }
                            match &phrases[p] {
                                None => None,
                                Some(phrase) => phrase.step(step_cursor),
                            }
                        },
                    }
                },
            }
        },
    }
}

/// An empty bank of `BANK_SIZE` phrases.
pub fn empty_phrase_bank() -> (v: Vec<Option<Phrase>>)
    ensures
        v@.len() == BANK_SIZE,
        forall|i: int| 0 <= i < BANK_SIZE ==> v@[i] is None,
{
    empty_slots(BANK_SIZE)
}

/// An empty bank of `BANK_SIZE` chains.
pub fn empty_chain_bank() -> (v: Vec<Option<Chain>>)
    ensures
        v@.len() == BANK_SIZE,
        forall|i: int| 0 <= i < BANK_SIZE ==> v@[i] is None,
{
    empty_slots(BANK_SIZE)
}

/// `TRACK_CHAIN_SLOTS` empty chain slots for a track.
pub fn empty_track_chains() -> (v: Vec<Option<usize>>)
    ensures
        v@.len() == TRACK_CHAIN_SLOTS,
        forall|i: int| 0 <= i < TRACK_CHAIN_SLOTS ==> v@[i] is None,
{
    empty_slots(TRACK_CHAIN_SLOTS)
}

} // verus!
