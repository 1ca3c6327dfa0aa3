//! The operator graph of an instrument: oscillators wired as a directed
//! acyclic graph, evaluated once per sample with a memo table.
use vstd::prelude::*;

use crate::counting::{count_true, lemma_count_true_bound, lemma_count_true_none, lemma_count_true_set};
use crate::units::{floor_mod, PHASE_CYCLE, PHASE_PER_UNIT, UNIT};
use crate::waveform::{opt_int, scale, scale_exec, wave_value, FrequencyModifier, Gain, Waveform};

verus! {

/// One oscillator node. Its phase is moved by the sum of the outputs of
/// the operators listed in `inputs` (none, one, or several summed).
#[derive(Clone, Debug)]
pub struct Operator {
    pub waveform: Waveform,
    pub frequency_modifier: FrequencyModifier,
    pub gain: Gain,
    pub inputs: Vec<usize>,
}

/// Why a list of operators does not form a valid graph.
#[derive(PartialEq, Eq, Structural, Clone, Copy, Debug)]
pub enum GraphError {
    Empty,
    IndexOutOfRange,
    InvalidGain,
    Cycle,
}

/// Every input reference names an operator of the list.
pub open spec fn inputs_in_range(ops: Seq<Operator>) -> bool {
    forall|i: int, k: int|
        0 <= i < ops.len() && 0 <= k < ops[i].inputs@.len() ==> #[trigger] ops[i].inputs@[k]
            < ops.len()
}

/// Every gain is well formed.
pub open spec fn gains_valid(ops: Seq<Operator>) -> bool {
    forall|i: int| 0 <= i < ops.len() ==> (#[trigger] ops[i]).gain.wf()
}

/// `rank` orders the graph: every input of an operator ranks strictly
/// lower than the operator itself.
pub open spec fn is_ranking(ops: Seq<Operator>, rank: Seq<int>) -> bool {
    &&& rank.len() == ops.len()
    &&& forall|i: int, k: int|
        0 <= i < ops.len() && 0 <= k < ops[i].inputs@.len() ==> {
            let j = #[trigger] ops[i].inputs@[k];
            0 <= j < ops.len() && rank[j as int] < rank[i]
        }
}

/// The references form no cycle.
pub open spec fn acyclic(ops: Seq<Operator>) -> bool {
    exists|rank: Seq<int>| is_ranking(ops, rank)
}

/// `rank` as mathematical integers.
pub open spec fn rank_ints(rank: Seq<usize>) -> Seq<int> {
    rank.map_values(|x: usize| x as int)
}

/// Phase offset that a modulation value `v` (millionths) adds.
pub open spec fn phase_offset(v: int) -> int {
    (v * PHASE_PER_UNIT) % (PHASE_CYCLE as int)
}

/// Sum of the phase offsets of the first `k` inputs of operator `i`,
/// wrapped to one cycle.
pub open spec fn input_phase(
    ops: Seq<Operator>,
    rank: Seq<usize>,
    phases: Seq<u32>,
    t: int,
    r: Option<int>,
    i: int,
    k: int,
) -> int
    decreases rank[i] as int, k,
{
    if !(0 <= i < ops.len()) || k <= 0 || k > ops[i].inputs@.len() {
        0
    } else {
        let j = ops[i].inputs@[k - 1] as int;
        let prev = input_phase(ops, rank, phases, t, r, i, k - 1);
        let v = if 0 <= j < ops.len() && rank[j] < rank[i] {
            output(ops, rank, phases, t, r, j)
        } else {
            0
        };
        (prev + phase_offset(v)) % (PHASE_CYCLE as int)
    }
}

/// Whether the first `k` inputs of operator `i` are all done.
pub open spec fn inputs_done(ops: Seq<Operator>, rank: Seq<usize>, r: Option<int>, i: int, k: int) -> bool
    decreases rank[i] as int, k,
{
    if !(0 <= i < ops.len()) || k <= 0 || k > ops[i].inputs@.len() {
        true
    } else {
        let j = ops[i].inputs@[k - 1] as int;
        inputs_done(ops, rank, r, i, k - 1) && (0 <= j < ops.len() && rank[j] < rank[i] ==> done_of(
            ops,
            rank,
            r,
            j,
        ))
    }
}

/// Whether operator `i` is done: its own gain is done and so is every
/// operator feeding it (a sum of inputs is done only when each is).
pub open spec fn done_of(ops: Seq<Operator>, rank: Seq<usize>, r: Option<int>, i: int) -> bool
    decreases rank[i] as int, ops[i].inputs@.len() + 1,
{
    if !(0 <= i < ops.len()) {
        true
    } else {
        ops[i].gain.done_at(r) && inputs_done(ops, rank, r, i, ops[i].inputs@.len() as int)
    }
}

/// Output in millionths of operator `i` for one sample: its waveform at
/// its own phase moved by its inputs, times its gain. Once every input is
/// done, the inputs no longer move the phase.
pub open spec fn output(
    ops: Seq<Operator>,
    rank: Seq<usize>,
    phases: Seq<u32>,
    t: int,
    r: Option<int>,
    i: int,
) -> int
    decreases rank[i] as int, ops[i].inputs@.len() + 1,
{
    if !(0 <= i < ops.len()) {
        0
    } else {
        let moved = if inputs_done(ops, rank, r, i, ops[i].inputs@.len() as int) {
            0
        } else {
            input_phase(ops, rank, phases, t, r, i, ops[i].inputs@.len() as int)
        };
        let p = (phases[i] + moved) % (PHASE_CYCLE as int);
        scale(ops[i].gain.level_at(t, r), wave_value(ops[i].waveform, p))
    }
}

/// A validated operator graph; operator 0 is the output (the carrier).
#[derive(Clone, Debug)]
pub struct OperatorGraph {
    pub operators: Vec<Operator>,
    /// A topological rank of each operator: inputs rank lower.
    pub rank: Vec<usize>,
}

/// Memo table of one sample: the value of each operator computed so far,
/// and how many oscillator evaluations were made.
#[derive(Clone, Debug)]
pub struct Memo {
    pub values: Vec<Option<i64>>,
    pub finished: Vec<bool>,
    pub evaluations: usize,
}

/// Which entries of a memo table are filled.
pub open spec fn filled(values: Seq<Option<i64>>) -> Seq<bool> {
    values.map_values(|o: Option<i64>| o is Some)
}

impl Memo {
    /// An empty memo table for `n` operators.
    pub fn new(n: usize) -> (m: Memo)
        ensures
            m.values@.len() == n,
            m.finished@.len() == n,
            forall|j: int| 0 <= j < n ==> m.values@[j] is None,
            m.evaluations == 0,
            m.evaluations == count_true(filled(m.values@)),
    {
        let mut values: Vec<Option<i64>> = Vec::new();
        let mut finished: Vec<bool> = Vec::new();
        let mut k: usize = 0;
        while k < n
            invariant
                k <= n,
                values@.len() == k,
                finished@.len() == k,
                forall|j: int| 0 <= j < k ==> values@[j] is None,
            decreases n - k,
        {
            values.push(None);
            finished.push(false);
            k = k + 1;
        }
        proof {
            assert(filled(values@) =~= Seq::new(n as nat, |k: int| false));
            lemma_count_true_none(n as nat);
        }
        Memo { values, finished, evaluations: 0 }
    }

    /// Empties the table for the next sample.
    pub fn clear(&mut self)
        ensures
            final(self).values@.len() == old(self).values@.len(),
            final(self).finished@.len() == old(self).values@.len(),
            forall|j: int| 0 <= j < final(self).values@.len() ==> final(self).values@[j] is None,
            final(self).evaluations == 0,
            final(self).evaluations == count_true(filled(final(self).values@)),
    {
        let n = self.values.len();
        *self = Memo::new(n);
    }

    /// The table agrees with the graph: each filled entry holds that
    /// operator's output and whether it is done, and the counter equals
    /// the number of filled entries.
    pub open spec fn consistent(
        self,
        g: OperatorGraph,
        phases: Seq<u32>,
        t: int,
        r: Option<int>,
    ) -> bool {
        &&& self.values@.len() == g.operators@.len()
        &&& self.finished@.len() == g.operators@.len()
        &&& self.evaluations == count_true(filled(self.values@))
        &&& forall|j: int|
            0 <= j < self.values@.len() && (#[trigger] self.values@[j]) is Some ==> {
                &&& self.values@[j]->0 == output(g.operators@, g.rank@, phases, t, r, j)
                &&& -UNIT <= self.values@[j]->0 <= UNIT
                &&& self.finished@[j] == done_of(g.operators@, g.rank@, r, j)
            }
    }
}

fn phase_offset_exec(v: i64) -> (p: u64)
    requires
        -UNIT <= v <= UNIT,
    ensures
        p == phase_offset(v as int),
        p < PHASE_CYCLE,
{
    let m = floor_mod(v * PHASE_PER_UNIT, PHASE_CYCLE as i64);
    m as u64
}

proof fn lemma_min_unplaced(placed: Seq<bool>, r: Seq<int>, w: int, upto: int) -> (m: int)
    requires
        0 <= w < placed.len(),
        !placed[w],
        r.len() == placed.len(),
        0 <= upto <= placed.len(),
    ensures
        0 <= m < placed.len(),
        !placed[m],
        r[m] <= r[w],
        forall|j: int| 0 <= j < upto && !placed[j] ==> r[m] <= r[j],
    decreases upto,
{
    if upto == 0 {
        w
    } else {
        let m0 = lemma_min_unplaced(placed, r, w, upto - 1);
        if !placed[upto - 1] && r[upto - 1] < r[m0] {
            upto - 1
        } else {
            m0
        }
    }
}

/// Invariant of the placement: `count` operators are placed, each with a
/// rank below `count` and above the ranks of its inputs, all placed.
pub open spec fn placement_ok(ops: Seq<Operator>, placed: Seq<bool>, rank: Seq<usize>, count: int) -> bool {
    &&& placed.len() == ops.len()
    &&& rank.len() == ops.len()
    &&& 0 <= count <= ops.len()
    &&& count == count_true(placed)
    &&& forall|a: int| 0 <= a < ops.len() && #[trigger] placed[a] ==> rank[a] < count
    &&& forall|a: int, k: int|
        0 <= a < ops.len() && placed[a] && 0 <= k < ops[a].inputs@.len() ==> {
            let j = #[trigger] ops[a].inputs@[k] as int;
            placed[j] && rank[j] < rank[a]
        }
}

/// Every operator not yet placed has an input not yet placed.
pub open spec fn stuck(ops: Seq<Operator>, placed: Seq<bool>) -> bool {
    forall|a: int|
        0 <= a < ops.len() && !#[trigger] placed[a] ==> exists|k: int|
            0 <= k < ops[a].inputs@.len() && !placed[ops[a].inputs@[k] as int]
}

/// Whether every input of operator `i` is placed.
fn inputs_placed(operators: &Vec<Operator>, placed: &Vec<bool>, i: usize) -> (ready: bool)
    requires
        inputs_in_range(operators@),
        placed@.len() == operators@.len(),
        i < operators@.len(),
    ensures
        ready <==> forall|k: int|
            0 <= k < operators@[i as int].inputs@.len() ==> placed@[#[trigger] operators@[i as int].inputs@[k] as int],
{
    let ins = &operators[i].inputs;
    let mut k: usize = 0;
    while k < ins.len()
        invariant
            inputs_in_range(operators@),
            placed@.len() == operators@.len(),
            i < operators@.len(),
            ins@ == operators@[i as int].inputs@,
            k <= ins@.len(),
            forall|kk: int| 0 <= kk < k ==> placed@[#[trigger] ins@[kk] as int],
        decreases ins@.len() - k,
    {
        assert(ins@[k as int] < operators@.len());
        if !placed[ins[k]] {
            return false;
        }
        k = k + 1;
    }
    true
}

/// One pass over the operators, placing each whose inputs are all placed.
/// Returns whether any was placed; when none was, the graph is stuck.
fn place_ready(operators: &Vec<Operator>, placed: &mut Vec<bool>, rank: &mut Vec<usize>, count: &mut usize) -> (progress: bool)
    requires
        inputs_in_range(operators@),
        placement_ok(operators@, old(placed)@, old(rank)@, *old(count) as int),
    ensures
        placement_ok(operators@, final(placed)@, final(rank)@, *final(count) as int),
        progress <==> *final(count) > *old(count),
        !progress ==> final(placed)@ == old(placed)@ && stuck(operators@, final(placed)@),
{
    let n = operators.len();
    let ghost start = placed@;
    let ghost start_count = *count;
    let mut progress = false;
    let mut i: usize = 0;
    while i < n
        invariant
            n == operators@.len(),
            inputs_in_range(operators@),
            placement_ok(operators@, placed@, rank@, *count as int),
            start_count <= *count,
            progress <==> *count > start_count,
            !progress ==> placed@ == start,
            i <= n,
            !progress ==> forall|a: int|
                0 <= a < i && !#[trigger] placed@[a] ==> exists|k: int|
                    0 <= k < operators@[a].inputs@.len() && !placed@[operators@[a].inputs@[k] as int],
        decreases n - i,
    {
        if !placed[i] {
            let ready = inputs_placed(operators, placed, i);
            if ready {
                proof {
                    lemma_count_true_set(placed@, i as int);
                    lemma_count_true_bound(placed@.update(i as int, true));
                }
                let ghost before = placed@;
                let ghost rank_before = rank@;
                placed.set(i, true);
                rank.set(i, *count);
                *count = *count + 1;
                progress = true;
                proof {
                    assert forall|a: int, k: int|
                        0 <= a < n && placed@[a] && 0 <= k < operators@[a].inputs@.len() implies {
                            let j = #[trigger] operators@[a].inputs@[k] as int;
                            placed@[j] && rank@[j] < rank@[a]
                        } by {
                        let j = operators@[a].inputs@[k] as int;
                        if a == i {
                            assert(before[j]);
                            assert(j != i);
                        } else {
                            assert(before[a]);
                            assert(before[j]);
                        }
                    }
                    assert forall|a: int| 0 <= a < n && #[trigger] placed@[a] implies rank@[a] < *count by {
                        if a != i {
                            assert(before[a]);
                        }
                    }
                }
            } else {
                proof {
                    let kk = choose|kk: int|
                        0 <= kk < operators@[i as int].inputs@.len() && !placed@[#[trigger] operators@[i as int].inputs@[kk] as int];
                }
            }
        }
        i = i + 1;
    }
    progress
}

proof fn lemma_stuck_is_cyclic(ops: Seq<Operator>, placed: Seq<bool>, rank: Seq<usize>, count: int)
    requires
        placement_ok(ops, placed, rank, count),
        count < ops.len(),
        stuck(ops, placed),
    ensures
        !acyclic(ops),
{
    lemma_count_true_bound(placed);
    let w = choose|a: int| 0 <= a < placed.len() && !#[trigger] placed[a];
    assert forall|rk: Seq<int>| !is_ranking(ops, rk) by {
        if is_ranking(ops, rk) {
            let m = lemma_min_unplaced(placed, rk, w, ops.len() as int);
            assert(!placed[m]);
            let k = choose|k: int|
                0 <= k < ops[m].inputs@.len() && !placed[ops[m].inputs@[k] as int];
            let j = ops[m].inputs@[k] as int;
            assert(rk[j] < rk[m]);
        }
    }
}

impl OperatorGraph {
    /// The graph is non-empty, its references are in range and ranked,
    /// and its gains are well formed.
    pub open spec fn wf(self) -> bool {
        &&& self.operators@.len() > 0
        &&& self.rank@.len() == self.operators@.len()
        &&& is_ranking(self.operators@, rank_ints(self.rank@))
        &&& gains_valid(self.operators@)
    }

    /// Output of operator `i` for one sample, by the recursive definition.
    pub open spec fn output_of(self, phases: Seq<u32>, t: int, r: Option<int>, i: int) -> int {
        output(self.operators@, self.rank@, phases, t, r, i)
    }

    /// Validates a list of operators: it must be non-empty, reference only
    /// operators of the list, hold well-formed gains and have no cycle.
    pub fn new(operators: Vec<Operator>) -> (res: Result<OperatorGraph, GraphError>)
        ensures
            res is Ok <==> operators@.len() > 0 && inputs_in_range(operators@) && gains_valid(
                operators@,
            ) && acyclic(operators@),
            res is Ok ==> res->Ok_0.wf() && res->Ok_0.operators@ == operators@,
            res == Err::<OperatorGraph, GraphError>(GraphError::Empty) <==> operators@.len() == 0,
            res == Err::<OperatorGraph, GraphError>(GraphError::IndexOutOfRange) <==> operators@.len()
                > 0 && !inputs_in_range(operators@),
            res == Err::<OperatorGraph, GraphError>(GraphError::InvalidGain) <==> operators@.len()
                > 0 && inputs_in_range(operators@) && !gains_valid(operators@),
            res == Err::<OperatorGraph, GraphError>(GraphError::Cycle) <==> operators@.len() > 0
                && inputs_in_range(operators@) && gains_valid(operators@) && !acyclic(operators@),
    {
        let n = operators.len();
        if n == 0 {
            return Err(GraphError::Empty);
        }
        // every reference in range
        let mut i: usize = 0;
        while i < n
            invariant
                n == operators@.len(),
                i <= n,
                forall|a: int, k: int|
                    0 <= a < i && 0 <= k < operators@[a].inputs@.len()
                        ==> #[trigger] operators@[a].inputs@[k] < n,
            decreases n - i,
        {
            let ins = &operators[i].inputs;
            let mut k: usize = 0;
            while k < ins.len()
                invariant
                    n == operators@.len(),
                    i < n,
                    ins@ == operators@[i as int].inputs@,
                    k <= ins@.len(),
                    forall|a: int, kk: int|
                        0 <= a < i && 0 <= kk < operators@[a].inputs@.len()
                            ==> #[trigger] operators@[a].inputs@[kk] < n,
                    forall|kk: int| 0 <= kk < k ==> #[trigger] ins@[kk] < n,
                decreases ins@.len() - k,
            {
                if ins[k] >= n {
                    proof {
                        assert(operators@[i as int].inputs@[k as int] >= n);
                    }
                    return Err(GraphError::IndexOutOfRange);
                }
                k = k + 1;
            }
            i = i + 1;
        }
        // every gain well formed
        let mut i: usize = 0;
        while i < n
            invariant
                n == operators@.len(),
                i <= n,
                inputs_in_range(operators@),
                forall|a: int| 0 <= a < i ==> (#[trigger] operators@[a]).gain.wf(),
            decreases n - i,
        {
            if !operators[i].gain.is_valid() {
                return Err(GraphError::InvalidGain);
            }
            i = i + 1;
        }
        // place operators whose inputs are all placed, until none is left
        let mut placed: Vec<bool> = Vec::new();
        let mut rank: Vec<usize> = Vec::new();
        let mut i: usize = 0;
        while i < n
            invariant
                i <= n,
                placed@.len() == i,
                rank@.len() == i,
                forall|a: int| 0 <= a < i ==> !#[trigger] placed@[a],
            decreases n - i,
        {
            placed.push(false);
            rank.push(0);
            i = i + 1;
        }
        let mut count: usize = 0;
        proof {
            assert(placed@ =~= Seq::new(n as nat, |k: int| false));
            lemma_count_true_none(n as nat);
        }
        while count < n
            invariant
                n == operators@.len(),
                inputs_in_range(operators@),
                gains_valid(operators@),
                placement_ok(operators@, placed@, rank@, count as int),
            decreases n - count,
        {
            let progress = place_ready(&operators, &mut placed, &mut rank, &mut count);
            if !progress {
                proof {
                    lemma_stuck_is_cyclic(operators@, placed@, rank@, count as int);
                }
                return Err(GraphError::Cycle);
            }
        }
        proof {
            lemma_count_true_bound(placed@);
            let ri = rank_ints(rank@);
            assert forall|a: int, k: int|
                0 <= a < n && 0 <= k < operators@[a].inputs@.len() implies {
                    let j = #[trigger] operators@[a].inputs@[k];
                    0 <= j < n && ri[j as int] < ri[a]
                } by {
                assert(placed@[a]);
            }
            assert(is_ranking(operators@, ri));
        }
        Ok(OperatorGraph { operators, rank })
    }

    /// Evaluates operator `i` for one sample, computing each operator at
    /// most once: values already in `memo` are reused, new ones recorded.
    /// `phases` holds each operator's own phase, `t` the time since onset
    /// and `r` the time since release, in microseconds.
    pub fn eval(&self, i: usize, phases: &Vec<u32>, t: u64, r: Option<u64>, memo: &mut Memo) -> (res: (
        i64,
        bool,
    ))
        requires
            self.wf(),
            i < self.operators@.len(),
            phases@.len() == self.operators@.len(),
            old(memo).consistent(*self, phases@, t as int, opt_int(r)),
        ensures
            res.0 == self.output_of(phases@, t as int, opt_int(r), i as int),
            res.1 == done_of(self.operators@, self.rank@, opt_int(r), i as int),
            -UNIT <= res.0 <= UNIT,
            final(memo).consistent(*self, phases@, t as int, opt_int(r)),
            final(memo).values@[i as int] == Some(res.0),
        decreases self.rank@[i as int],
    {
        if let Some(v) = memo.values[i] {
            return (v, memo.finished[i]);
        }
        let ghost ops = self.operators@;
        let ghost rk = self.rank@;
        let ins = &self.operators[i].inputs;
        let mut acc: u64 = 0;
        let mut all_done = true;
        let mut k: usize = 0;
        assert(input_phase(ops, rk, phases@, t as int, opt_int(r), i as int, 0) == 0);
        while k < ins.len()
            invariant
                self.wf(),
                i < ops.len(),
                ops == self.operators@,
                rk == self.rank@,
                phases@.len() == ops.len(),
                ins@ == ops[i as int].inputs@,
                k <= ins@.len(),
                acc == input_phase(ops, rk, phases@, t as int, opt_int(r), i as int, k as int),
                all_done == inputs_done(ops, rk, opt_int(r), i as int, k as int),
                acc < PHASE_CYCLE,
                memo.consistent(*self, phases@, t as int, opt_int(r)),
            decreases ins@.len() - k,
        {
            let j = ins[k];
            proof {
                assert(0 <= j < ops.len() && rank_ints(rk)[j as int] < rank_ints(rk)[i as int]);
            }
            let (v, d) = self.eval(j, phases, t, r, memo);
            let off = phase_offset_exec(v);
            acc = (acc + off) % PHASE_CYCLE;
            all_done = all_done && d;
            k = k + 1;
        }
        if let Some(v) = memo.values[i] {
            return (v, memo.finished[i]);
        }
        let moved: u64 = if all_done {
            0
        } else {
            acc
        };
        let p: u32 = ((phases[i] as u64 + moved) % PHASE_CYCLE) as u32;
        let op = &self.operators[i];
        proof {
            assert(ops[i as int].gain.wf());
        }
        let g = op.gain.level(t, r);
        let w = op.waveform.tick(p);
        let out = scale_exec(g, w);
        let done = op.gain.done(r) && all_done;
        let ghost before = memo.values@;
        let ghost before_done = memo.finished@;
        let _len = memo.values.len();
        proof {
            lemma_count_true_set(filled(before), i as int);
            lemma_count_true_bound(filled(before).update(i as int, true));
            assert(filled(before.update(i as int, Some(out))) =~= filled(before).update(i as int, true));
            assert(memo.evaluations == count_true(filled(before)));
            assert(filled(before).update(i as int, true).len() == memo.values@.len());
        }
        memo.values.set(i, Some(out));
        memo.finished.set(i, done);
        memo.evaluations = memo.evaluations + 1;
        proof {
            assert forall|j: int|
                0 <= j < memo.values@.len() && (#[trigger] memo.values@[j]) is Some implies {
                    &&& memo.values@[j]->0 == output(ops, rk, phases@, t as int, opt_int(r), j)
                    &&& -UNIT <= memo.values@[j]->0 <= UNIT
                    &&& memo.finished@[j] == done_of(ops, rk, opt_int(r), j)
                } by {
                if j != i {
                    assert(memo.values@[j] == before[j]);
                    assert(memo.finished@[j] == before_done[j]);
                }
            }
        }
        (out, done)
    }

    /// Evaluates the carrier (operator 0) for one sample, starting from an
    /// empty memo table; also reports whether the whole graph feeding the
    /// carrier is done.
    pub fn sample(&self, phases: &Vec<u32>, t: u64, r: Option<u64>, memo: &mut Memo) -> (res: (
        i64,
        bool,
    ))
        requires
            self.wf(),
            phases@.len() == self.operators@.len(),
        ensures
            res.0 == self.output_of(phases@, t as int, opt_int(r), 0),
            -UNIT <= res.0 <= UNIT,
            res.1 == done_of(self.operators@, self.rank@, opt_int(r), 0),
            final(memo).consistent(*self, phases@, t as int, opt_int(r)),
            final(memo).values@[0] == Some(res.0),
            final(memo).evaluations <= self.operators@.len(),
    {
        *memo = Memo::new(self.operators.len());
        proof {
            assert(filled(memo.values@) =~= Seq::new(self.operators@.len() as nat, |k: int| false));
        }
        let res = self.eval(0, phases, t, r, memo);
        proof {
            lemma_count_true_bound(filled(memo.values@));
        }
        res
    }
}

/// The memo table never counts more evaluations than there are filled
/// entries: each operator's oscillator is computed at most once per
/// sample, however many other operators read its output.
pub proof fn lemma_evaluated_at_most_once(
    g: OperatorGraph,
    phases: Seq<u32>,
    t: int,
    r: Option<int>,
    memo: Memo,
)
    requires
        g.wf(),
        memo.consistent(g, phases, t, r),
    ensures
        memo.evaluations == count_true(filled(memo.values@)),
        memo.evaluations <= g.operators@.len(),
{
    lemma_count_true_bound(filled(memo.values@));
}

} // verus!
