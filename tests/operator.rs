use tracker_synth::envelope::Envelope;
use tracker_synth::operator::{GraphError, Memo, Operator, OperatorGraph};
use tracker_synth::units::UNIT;
use tracker_synth::waveform::{FrequencyModifier, Gain, Lfo, Waveform};

fn op(waveform: Waveform, inputs: Vec<usize>) -> Operator {
    Operator {
        waveform,
        frequency_modifier: FrequencyModifier::Unchanged,
        gain: Gain::Const(UNIT),
        inputs,
    }
}

fn diamond() -> OperatorGraph {
    // 0 sums 1 and 2, which both read 3
    let ops = vec![
        op(Waveform::Sine, vec![1, 2]),
        op(Waveform::Sine, vec![3]),
        op(Waveform::Triangle, vec![3]),
        op(Waveform::Saw, vec![]),
    ];
    OperatorGraph::new(ops).unwrap()
}

#[test]
fn shared_operator_is_evaluated_once_per_sample() {
    let g = diamond();
    let phases = vec![0u32, 0, 0, 0];
    let mut memo = Memo::new(0);
    let (_, done) = g.sample(&phases, 0, None, &mut memo);
    assert_eq!(memo.evaluations, 4);
    assert!(!done);
    for v in memo.values.iter() {
        assert!(v.is_some());
    }
    // a second sample starts from an empty table again
    let (_, _) = g.sample(&phases, 10, None, &mut memo);
    assert_eq!(memo.evaluations, 4);
}

#[test]
fn memoized_value_matches_direct_computation() {
    let g = diamond();
    let phases = vec![1u32 << 30, 0, 0, 0];
    let mut memo = Memo::new(4);
    let (v, done) = g.eval(3, &phases, 0, None, &mut memo);
    assert!(!done);
    // saw at phase 0 is the bottom of its ramp
    assert_eq!(v, 0);
    assert_eq!(memo.evaluations, 1);
    let (again, _) = g.eval(3, &phases, 0, None, &mut memo);
    assert_eq!(again, 0);
    assert_eq!(memo.evaluations, 1);
}

#[test]
fn cycle_is_rejected() {
    let ops = vec![op(Waveform::Sine, vec![1]), op(Waveform::Sine, vec![2]), op(Waveform::Sine, vec![1])];
    assert_eq!(OperatorGraph::new(ops).unwrap_err(), GraphError::Cycle);
    let self_loop = vec![op(Waveform::Sine, vec![0])];
    assert_eq!(OperatorGraph::new(self_loop).unwrap_err(), GraphError::Cycle);
}

#[test]
fn out_of_range_reference_is_rejected() {
    let ops = vec![op(Waveform::Sine, vec![1]), op(Waveform::Sine, vec![5])];
    assert_eq!(OperatorGraph::new(ops).unwrap_err(), GraphError::IndexOutOfRange);
}

#[test]
fn empty_graph_is_rejected() {
    assert_eq!(OperatorGraph::new(vec![]).unwrap_err(), GraphError::Empty);
}

#[test]
fn invalid_gain_is_rejected() {
    let mut o = op(Waveform::Sine, vec![]);
    o.gain = Gain::Const(2 * UNIT);
    assert_eq!(OperatorGraph::new(vec![o]).unwrap_err(), GraphError::InvalidGain);
    let mut e = op(Waveform::Sine, vec![]);
    e.gain = Gain::Envelope(Envelope { attack: 0, decay: 0, release: 0, start_level: 2_000_000, sustained_level: 0 });
    assert_eq!(OperatorGraph::new(vec![e]).unwrap_err(), GraphError::InvalidGain);
}

#[test]
fn acyclic_graph_in_any_order_is_accepted() {
    // inputs listed before and after their readers
    let ops = vec![op(Waveform::Sine, vec![2]), op(Waveform::Saw, vec![]), op(Waveform::Sine, vec![1])];
    let g = OperatorGraph::new(ops).unwrap();
    assert!(g.rank[1] < g.rank[2] && g.rank[2] < g.rank[0]);
}

#[test]
fn waveform_values() {
    let quarter = 1u32 << 30;
    let half = 1u32 << 31;
    assert_eq!(Waveform::Sine.tick(0), 0);
    assert_eq!(Waveform::Sine.tick(quarter), UNIT);
    assert_eq!(Waveform::Sine.tick(half + quarter), -UNIT);
    assert_eq!(Waveform::Triangle.tick(0), -UNIT);
    assert_eq!(Waveform::Triangle.tick(quarter), 0);
    assert_eq!(Waveform::Triangle.tick(half), UNIT);
    assert_eq!(Waveform::Saw.tick(0), 0);
    assert_eq!(Waveform::Saw.tick(quarter), UNIT / 4);
    assert_eq!(Waveform::Saw.tick(half), UNIT / 2);
    assert_eq!(Waveform::Saw.tick(u32::MAX), UNIT - 1);
    assert_eq!(Waveform::Square.tick(quarter), -UNIT);
    assert_eq!(Waveform::Square.tick(half + quarter), UNIT);
    assert_eq!(Waveform::Pulse { duty_cycle: 250_000 }.tick(quarter / 2), -UNIT);
    assert_eq!(Waveform::Pulse { duty_cycle: 250_000 }.tick(half), UNIT);
}

#[test]
fn frequency_modifiers() {
    assert_eq!(FrequencyModifier::Factor(2_000).apply(440_000), 880_000);
    assert_eq!(FrequencyModifier::Shift(-500_000).apply(440_000), 0);
    assert_eq!(FrequencyModifier::Shift(60_000).apply(440_000), 500_000);
    assert_eq!(FrequencyModifier::Fixed(5_000).apply(440_000), 5_000);
    assert_eq!(FrequencyModifier::Unchanged.apply(440_000), 440_000);
}

#[test]
fn gains() {
    let lfo = Lfo { waveform: Waveform::Square, frequency: 1_000_000 };
    // a 1 Hz square is low for the first half second, high after it
    assert_eq!(Gain::Lfo(lfo).level(250_000, None), -UNIT);
    assert_eq!(Gain::Lfo(lfo).level(750_000, None), UNIT);
    assert!(!Gain::Const(UNIT).done(None));
    assert!(!Gain::Const(UNIT).done(Some(0)));
    assert!(Gain::Const(UNIT).done(Some(1)));
    let env = Envelope::new(10, 10, 100, UNIT as u32, 500_000);
    assert!(Gain::Envelope(env).done(Some(101)));
    assert!(!Gain::Envelope(env).done(Some(100)));
}

#[test]
fn carrier_done_follows_its_gain() {
    let env = Envelope::new(10, 10, 100, UNIT as u32, 500_000);
    let mut carrier = op(Waveform::Square, vec![]);
    carrier.gain = Gain::Envelope(env);
    let g = OperatorGraph::new(vec![carrier]).unwrap();
    let phases = vec![3u32 << 30];
    let mut memo = Memo::new(1);
    let (v, done) = g.sample(&phases, 1_000, None, &mut memo);
    assert_eq!(v, 500_000);
    assert!(!done);
    let (v, done) = g.sample(&phases, 1_200, Some(200), &mut memo);
    assert_eq!(v, 0);
    assert!(done);
}

#[test]
fn graph_is_done_only_when_every_gain_feeding_the_carrier_is() {
    let long = Envelope::new(10, 10, 1_000, UNIT as u32, UNIT as u32);
    let mut modulator = op(Waveform::Square, vec![]);
    modulator.gain = Gain::Envelope(long);
    let carrier = op(Waveform::Square, vec![1]);
    let g = OperatorGraph::new(vec![carrier, modulator]).unwrap();
    // the carrier sits just below the half cycle; the modulator's full
    // output pushes it past
    let phases = vec![(1u32 << 31) - 1000, 3u32 << 30];
    let mut memo = Memo::new(2);
    let (v, done) = g.sample(&phases, 100, None, &mut memo);
    assert!(!done);
    assert_eq!(memo.finished, vec![false, false]);
    let moved = v;
    // released: the carrier's constant gain is done, the modulator's
    // envelope is still releasing
    let (_, done) = g.sample(&phases, 110, Some(10), &mut memo);
    assert!(!done);
    // once the modulator is done too, the graph is done and the
    // modulator no longer moves the carrier's phase
    let (v, done) = g.sample(&phases, 3_000, Some(2_000), &mut memo);
    assert!(done);
    assert_eq!(v, -UNIT);
    assert_ne!(moved, v);
}
