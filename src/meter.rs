//! Metering taps: fixed-size rolling buffers of the latest stereo frames
//! seen at a point of the mix.
use vstd::prelude::*;

use crate::mix::Frame;

verus! {

/// The last `capacity` frames pushed into a tap, oldest first.
pub open spec fn keep_last(s: Seq<Frame>, capacity: nat) -> Seq<Frame> {
    if s.len() <= capacity {
        s
    } else {
        s.subrange(s.len() - capacity, s.len() as int)
    }
}

/// `|x|` as a mathematical integer.
pub open spec fn magnitude_of(x: i64) -> int {
    if x >= 0 {
        x as int
    } else {
        -(x as int)
    }
}

/// Largest `|left|` and largest `|right|` over `s`; zero when empty.
pub open spec fn peak_of(s: Seq<Frame>) -> (int, int)
    decreases s.len(),
{
    if s.len() == 0 {
        (0, 0)
    } else {
        let p = peak_of(s.drop_last());
        let l = magnitude_of(s.last().left);
        let r = magnitude_of(s.last().right);
        (if l > p.0 {
            l
        } else {
            p.0
        }, if r > p.1 {
            r
        } else {
            p.1
        })
    }
}

fn magnitude_exec(x: i64) -> (m: u64)
    ensures
        m == magnitude_of(x),
{
    if x >= 0 {
        x as u64
    } else if x == i64::MIN {
        9_223_372_036_854_775_808u64
    } else {
        (-x) as u64
    }
}

/// A ring buffer holding the latest `capacity` frames.
pub struct Meter {
    buffer: Vec<Frame>,
    start: usize,
    count: usize,
    contents: Ghost<Seq<Frame>>,
}

impl Meter {
    /// The frames held, oldest first.
    pub closed spec fn view(self) -> Seq<Frame> {
        self.contents@
    }

    /// Number of frames the tap keeps.
    pub closed spec fn capacity(self) -> nat {
        self.buffer@.len()
    }

    pub closed spec fn wf(self) -> bool {
        &&& self.buffer@.len() > 0
        &&& self.start < self.buffer@.len()
        &&& self.count <= self.buffer@.len()
        &&& self.contents@.len() == self.count
        &&& forall|i: int|
            0 <= i < self.count ==> #[trigger] self.contents@[i] == self.buffer@[(self.start + i)
                % (self.buffer@.len() as int)]
    }

    /// An empty tap keeping `capacity` frames (at least one).
    pub fn new(capacity: usize) -> (m: Meter)
        ensures
            m.wf(),
            m.view() == Seq::<Frame>::empty(),
            m.capacity() == if capacity == 0 {
                1
            } else {
                capacity
            },
    {
        let cap = if capacity == 0 {
            1
        } else {
            capacity
        };
        let mut buffer: Vec<Frame> = Vec::new();
        let mut k: usize = 0;
        while k < cap
            invariant
                k <= cap,
                buffer@.len() == k,
            decreases cap - k,
        {
            buffer.push(Frame { left: 0, right: 0 });
            k = k + 1;
        }
        Meter { buffer, start: 0, count: 0, contents: Ghost(Seq::empty()) }
    }

    /// Number of frames held.
    pub fn len(&self) -> (n: usize)
        requires
            self.wf(),
        ensures
            n == self.view().len(),
    {
        self.count
    }

    /// Records a frame; once full, the oldest frame is dropped.
    pub fn push(&mut self, f: Frame)
        requires
            old(self).wf(),
        ensures
            final(self).wf(),
            final(self).capacity() == old(self).capacity(),
            final(self).view() == keep_last(old(self).view().push(f), old(self).capacity()),
    {
        let cap = self.buffer.len();
        let ghost old_view = self.contents@;
        if self.count < cap {
            let pos = if self.start < cap - self.count {
                self.start + self.count
            } else {
                self.start - (cap - self.count)
            };
            proof {
                lemma_wrap_index(self.start as int, self.count as int, cap as int);
            }
            self.buffer.set(pos, f);
            self.count = self.count + 1;
            self.contents = Ghost(old_view.push(f));
            proof {
                assert forall|i: int| 0 <= i < self.count implies #[trigger] self.contents@[i]
                    == self.buffer@[(self.start + i) % (cap as int)] by {
                    if i < self.count - 1 {
                        assert(old_view[i] == old(self).buffer@[(self.start + i) % (cap as int)]);
                        lemma_ring_distinct(self.start as int, i, self.count as int - 1, cap as int);
                    }
                }
            }
        } else {
            let pos = self.start;
            self.buffer.set(pos, f);
            self.start = (self.start + 1) % cap;
            let ghost next = old_view.push(f).subrange(1, cap as int + 1);
            self.contents = Ghost(next);
            proof {
                assert(keep_last(old_view.push(f), cap as nat) =~= next);
                assert forall|i: int| 0 <= i < self.count implies #[trigger] self.contents@[i]
                    == self.buffer@[(self.start + i) % (cap as int)] by {
                    let s0 = old(self).start as int;
                    lemma_ring_shift(s0, i, cap as int);
                    if i < cap - 1 {
                        assert(next[i] == old_view[i + 1]);
                        assert(old_view[i + 1] == old(self).buffer@[(s0 + i + 1) % (cap as int)]);
                        lemma_ring_distinct(s0, i + 1, 0, cap as int);
                        vstd::arithmetic::div_mod::lemma_small_mod(s0 as nat, cap as nat);
                    } else {
                        assert(next[i] == f);
                        lemma_ring_wrap(s0, cap as int);
                    }
                }
            }
        }
    }

    /// The `i`-th frame held, oldest first.
    pub fn get(&self, i: usize) -> (f: Frame)
        requires
            self.wf(),
            i < self.view().len(),
        ensures
            f == self.view()[i as int],
    {
        let cap = self.buffer.len();
        proof {
            lemma_wrap_index(self.start as int, i as int, cap as int);
        }
        let pos = if self.start < cap - i {
            self.start + i
        } else {
            self.start - (cap - i)
        };
        self.buffer[pos]
    }

    /// Peak magnitudes of the left and right channels over the latest `n`
    /// frames held (all of them when fewer are held).
    pub fn peak(&self, n: usize) -> (p: (u64, u64))
        requires
            self.wf(),
        ensures
            p.0 == peak_of(keep_last(self.view(), n as nat)).0,
            p.1 == peak_of(keep_last(self.view(), n as nat)).1,
    {
        let len = self.count;
        let from: usize = if n < len {
            len - n
        } else {
            0
        };
        let ghost view = self.view();
        let mut l: u64 = 0;
        let mut r: u64 = 0;
        let mut i: usize = from;
        proof {
            assert(view.subrange(from as int, from as int) =~= Seq::<Frame>::empty());
        }
        while i < len
            invariant
                self.wf(),
                view == self.view(),
                len == view.len(),
                from <= i <= len,
                l == peak_of(view.subrange(from as int, i as int)).0,
                r == peak_of(view.subrange(from as int, i as int)).1,
            decreases len - i,
        {
            let f = self.get(i);
            let ml = magnitude_exec(f.left);
            let mr = magnitude_exec(f.right);
            proof {
                let next = view.subrange(from as int, i as int + 1);
                assert(next.drop_last() =~= view.subrange(from as int, i as int));
                assert(next.last() == f);
            }
            if ml > l {
                l = ml;
            }
            if mr > r {
                r = mr;
            }
            i = i + 1;
        }
        proof {
            assert(view.subrange(from as int, len as int) =~= keep_last(view, n as nat));
        }
        (l, r)
    }

    /// The frames held, oldest first.
    pub fn frames(&self) -> (v: Vec<Frame>)
        requires
            self.wf(),
        ensures
            v@ == self.view(),
    {
        let mut v: Vec<Frame> = Vec::new();
        let mut i: usize = 0;
        while i < self.count
            invariant
                self.wf(),
                i <= self.count,
                v@ == self.view().subrange(0, i as int),
            decreases self.count - i,
        {
            v.push(self.get(i));
            i = i + 1;
            assert(v@ =~= self.view().subrange(0, i as int));
        }
        assert(v@ =~= self.view());
        v
    }
}

proof fn lemma_wrap_index(s: int, i: int, cap: int)
    requires
        0 <= s < cap,
        0 <= i <= cap,
    ensures
        (s + i) % cap == if s + i < cap {
            s + i
        } else {
            s + i - cap
        },
{
    if s + i < cap {
        vstd::arithmetic::div_mod::lemma_small_mod((s + i) as nat, cap as nat);
    } else {
        vstd::arithmetic::div_mod::lemma_mod_add_multiples_vanish(s + i - cap, cap);
        vstd::arithmetic::div_mod::lemma_small_mod((s + i - cap) as nat, cap as nat);
    }
}

proof fn lemma_ring_distinct(s: int, i: int, j: int, cap: int)
    requires
        0 <= s < cap,
        0 <= i < cap,
        0 <= j < cap,
        i != j,
    ensures
        (s + i) % cap != (s + j) % cap,
{
    if (s + i) % cap == (s + j) % cap {
        vstd::arithmetic::div_mod::lemma_fundamental_div_mod(s + i, cap);
        vstd::arithmetic::div_mod::lemma_fundamental_div_mod(s + j, cap);
        let qi = (s + i) / cap;
        let qj = (s + j) / cap;
        assert(0 <= qi <= 1 && 0 <= qj <= 1) by {
            vstd::arithmetic::div_mod::lemma_div_pos_is_pos(s + i, cap);
            vstd::arithmetic::div_mod::lemma_div_pos_is_pos(s + j, cap);
            vstd::arithmetic::div_mod::lemma_div_is_ordered(s + i, 2 * cap - 1, cap);
            vstd::arithmetic::div_mod::lemma_div_is_ordered(s + j, 2 * cap - 1, cap);
            vstd::arithmetic::div_mod::lemma_fundamental_div_mod(2 * cap - 1, cap);
            assert((2 * cap - 1) / cap == 1) by {
                vstd::arithmetic::div_mod::lemma_div_multiples_vanish_fancy(1, cap - 1, cap);
            }
        }
        assert(i - j == cap * (qi - qj)) by (nonlinear_arith)
            requires
                s + i == cap * qi + (s + i) % cap,
                s + j == cap * qj + (s + j) % cap,
                (s + i) % cap == (s + j) % cap,
        ;
        assert(false) by (nonlinear_arith)
            requires
                i - j == cap * (qi - qj),
                -cap < i - j < cap,
                i != j,
                cap > 0,
        ;
    }
}

proof fn lemma_ring_shift(s: int, i: int, cap: int)
    requires
        0 <= s < cap,
        0 <= i,
    ensures
        ((s + 1) % cap + i) % cap == (s + i + 1) % cap,
{
    vstd::arithmetic::div_mod::lemma_add_mod_noop(s + 1, i, cap);
    vstd::arithmetic::div_mod::lemma_add_mod_noop((s + 1) % cap, i, cap);
    vstd::arithmetic::div_mod::lemma_mod_twice(s + 1, cap);
    assert(s + i + 1 == s + 1 + i);
}

proof fn lemma_ring_wrap(s: int, cap: int)
    requires
        0 <= s < cap,
    ensures
        (s + cap - 1 + 1) % cap == s,
{
    vstd::arithmetic::div_mod::lemma_mod_add_multiples_vanish(s, cap);
    vstd::arithmetic::div_mod::lemma_small_mod(s as nat, cap as nat);
}

} // verus!
