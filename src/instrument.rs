//! Instruments: an operator graph with pan and send levels.
use vstd::prelude::*;

use crate::mix::{gained, lemma_gained_bounded, apply_gain, Frame, Sends, SAMPLE_LIMIT};
use crate::operator::OperatorGraph;
use crate::units::UNIT;

verus! {

/// An operator graph with its output levels: dry and one send per effect
/// bus (millionths, within full scale), and a pan from `-UNIT` (left) to
/// `UNIT` (right).
#[derive(Clone, Debug)]
pub struct Instrument {
    pub graph: OperatorGraph,
    pub dry_level: i64,
    pub chorus_level: i64,
    pub delay_level: i64,
    pub reverb_level: i64,
    pub pan: i64,
}

/// A level lies within `[0, UNIT]`.
pub open spec fn level_ok(l: int) -> bool {
    0 <= l <= UNIT
}

/// Stereo frame of a mono value `v` at pan `pan`: the side away from the
/// pan is attenuated linearly, the other kept.
pub open spec fn panned(pan: int, v: int) -> Frame {
    Frame {
        left: gained(if pan > 0 { UNIT - pan } else { UNIT as int }, v) as i64,
        right: gained(if pan < 0 { UNIT + pan } else { UNIT as int }, v) as i64,
    }
}

/// Frame `f` with both channels scaled by `g`.
pub open spec fn frame_gained(g: int, f: Frame) -> Frame {
    Frame { left: gained(g, f.left as int) as i64, right: gained(g, f.right as int) as i64 }
}

impl Instrument {
    pub open spec fn wf(self) -> bool {
        &&& self.graph.wf()
        &&& level_ok(self.dry_level as int)
        &&& level_ok(self.chorus_level as int)
        &&& level_ok(self.delay_level as int)
        &&& level_ok(self.reverb_level as int)
        &&& -UNIT <= self.pan <= UNIT
    }

    /// The four outputs of this instrument for the mono value `v`.
    pub open spec fn sends_for(self, v: int) -> Sends {
        let f = panned(self.pan as int, v);
        Sends {
            dry: frame_gained(self.dry_level as int, f),
            chorus: frame_gained(self.chorus_level as int, f),
            delay: frame_gained(self.delay_level as int, f),
            reverb: frame_gained(self.reverb_level as int, f),
        }
    }

    /// An instrument with the default levels: dry and reverb at full
    /// scale, delay at 0.8, no chorus, centred.
    pub fn new(graph: OperatorGraph) -> (i: Instrument)
        requires
            graph.wf(),
        ensures
            i.wf(),
            i.graph == graph,
            i.dry_level == UNIT && i.reverb_level == UNIT,
            i.chorus_level == 0 && i.delay_level == 800_000 && i.pan == 0,
    {
        Instrument {
            graph,
            dry_level: UNIT,
            chorus_level: 0,
            delay_level: 800_000,
            reverb_level: UNIT,
            pan: 0,
        }
    }

    /// An instrument with the given levels, or `None` when a level is
    /// outside `[0, UNIT]` or the pan outside `[-UNIT, UNIT]`.
    pub fn with_levels(
        graph: OperatorGraph,
        dry_level: i64,
        chorus_level: i64,
        delay_level: i64,
        reverb_level: i64,
        pan: i64,
    ) -> (r: Option<Instrument>)
        requires
            graph.wf(),
        ensures
            r is Some <==> level_ok(dry_level as int) && level_ok(chorus_level as int) && level_ok(
                delay_level as int,
            ) && level_ok(reverb_level as int) && -UNIT <= pan <= UNIT,
            r is Some ==> r->0.wf() && r->0.graph == graph && r->0.dry_level == dry_level
                && r->0.chorus_level == chorus_level && r->0.delay_level == delay_level
                && r->0.reverb_level == reverb_level && r->0.pan == pan,
    {
        if 0 <= dry_level && dry_level <= UNIT && 0 <= chorus_level && chorus_level <= UNIT && 0
            <= delay_level && delay_level <= UNIT && 0 <= reverb_level && reverb_level <= UNIT
            && -UNIT <= pan && pan <= UNIT {
            Some(Instrument { graph, dry_level, chorus_level, delay_level, reverb_level, pan })
        } else {
            None
        }
    }

    /// The four outputs for the mono value `v`.
    pub fn sends(&self, v: i64) -> (s: Sends)
        requires
            self.wf(),
            -SAMPLE_LIMIT <= v <= SAMPLE_LIMIT,
        ensures
            s == self.sends_for(v as int),
            s.wf(),
    {
        let lg: i64 = if self.pan > 0 {
            UNIT - self.pan
        } else {
            UNIT
        };
        let rg: i64 = if self.pan < 0 {
            UNIT + self.pan
        } else {
            UNIT
        };
        let f = Frame { left: apply_gain(lg, v), right: apply_gain(rg, v) };
        let s = Sends {
            dry: f.scaled(self.dry_level),
            chorus: f.scaled(self.chorus_level),
            delay: f.scaled(self.delay_level),
            reverb: f.scaled(self.reverb_level),
        };
        proof {
            lemma_gained_bounded(lg as int, v as int);
            lemma_gained_bounded(rg as int, v as int);
            assert(f == panned(self.pan as int, v as int));
            assert(s =~= self.sends_for(v as int));
        }
        s
    }
}

} // verus!
