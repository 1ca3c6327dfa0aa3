use tracker_synth::router::Buses;
use tracker_synth::meter::Meter;
use tracker_synth::mix::{Frame, Sends};
use tracker_synth::router::{sum_tracks, BusLevels, EffectUnit, Fade, Passthrough, Slot};
use tracker_synth::units::UNIT;

/// Halves its input, standing in for a different effect.
struct Half;

impl EffectUnit for Half {
    fn process(&mut self, input: Frame) -> Frame {
        Frame { left: input.left / 2, right: input.right / 2 }
    }
}

enum Unit {
    Pass(Passthrough),
    Half(Half),
}

impl EffectUnit for Unit {
    fn process(&mut self, input: Frame) -> Frame {
        match self {
            Unit::Pass(p) => p.process(input),
            Unit::Half(h) => h.process(input),
        }
    }
}

#[test]
fn crossfade_adds_no_jump_and_ends_on_the_new_unit() {
    let ramp = 4_800; // 0.1 s at 48 kHz
    let mut slot = Slot::new(Unit::Pass(Passthrough));
    let input = Frame { left: 800_000, right: -800_000 };
    assert_eq!(slot.process(input), input);
    slot.replace(Unit::Half(Half), ramp);
    assert!(slot.is_fading());
    let mut previous = input;
    for _ in 0..ramp {
        let out = slot.process(input);
        // between the old output and the new one, never rising
        assert!(out.left <= previous.left && out.left >= 400_000);
        assert!(out.right >= previous.right && out.right <= -400_000);
        // no step larger than the whole difference spread over the ramp
        assert!(previous.left - out.left <= 400_000 / ramp as i64 + 1);
        previous = out;
    }
    assert!(!slot.is_fading());
    assert_eq!(previous, Frame { left: 400_000, right: -400_000 });
    assert_eq!(slot.process(input), Frame { left: 400_000, right: -400_000 });
}

#[test]
fn fade_steps() {
    let mut f = Fade::new(4);
    let a = Frame { left: 0, right: 100 };
    let b = Frame { left: 100, right: 0 };
    assert_eq!(f.step(a, b), (Frame { left: 25, right: 75 }, false));
    assert_eq!(f.step(a, b), (Frame { left: 50, right: 50 }, false));
    assert_eq!(f.step(a, b), (Frame { left: 75, right: 25 }, false));
    assert_eq!(f.step(a, b), (Frame { left: 100, right: 0 }, true));
    assert_eq!(Fade::new(0).length, 1);
}

#[test]
fn bus_routing_formulas() {
    let levels = BusLevels {
        chorus_mix: UNIT / 2,
        delay_mix: UNIT,
        reverb_mix: UNIT / 4,
        chorus_to_reverb: UNIT,
        delay_to_reverb: UNIT / 2,
    };
    let sends = Frame { left: 1_000, right: 2_000 };
    let chorus = Frame { left: 400, right: 0 };
    let delay = Frame { left: 0, right: 800 };
    assert_eq!(levels.reverb_input(sends, chorus, delay), Frame { left: 1_400, right: 2_400 });
    let reverb = Frame { left: 4_000, right: 4_000 };
    assert_eq!(levels.output(sends, chorus, delay, reverb), Frame { left: 2_200, right: 3_800 });
}

#[test]
fn track_outputs_sum_per_bus() {
    let f = |l: i64, r: i64| Frame { left: l, right: r };
    let a = Sends { dry: f(1, 2), chorus: f(3, 4), delay: f(5, 6), reverb: f(7, 8) };
    let b = Sends { dry: f(10, 20), chorus: f(30, 40), delay: f(50, 60), reverb: f(70, 80) };
    let s = sum_tracks(&vec![a, b, Sends::silent()]);
    assert_eq!(s, Sends { dry: f(11, 22), chorus: f(33, 44), delay: f(55, 66), reverb: f(77, 88) });
    assert_eq!(sum_tracks(&vec![]), Sends::silent());
}

#[test]
fn buses_route_and_meter_every_sample() {
    let mut buses = Buses::new(Unit::Pass(Passthrough), Unit::Half(Half), Unit::Pass(Passthrough), 3);
    let levels = BusLevels::new();
    let f = |l: i64, r: i64| Frame { left: l, right: r };
    let sum = Sends { dry: f(100, 100), chorus: f(40, 0), delay: f(1_000, 1_000), reverb: f(10, 20) };
    let r = buses.route(&levels, &sum);
    assert_eq!(r.chorus, f(40, 0));
    assert_eq!(r.delay, f(500, 500));
    // reverb gets its sends only: both feeds start at zero
    assert_eq!(r.reverb, f(10, 20));
    // dry + chorus at full level + delay muted + reverb at full level
    assert_eq!(r.out, f(150, 120));
    for _ in 0..4 {
        buses.route(&levels, &sum);
    }
    assert_eq!(buses.out_meter.len(), 3);
    assert_eq!(buses.out_meter.frames(), vec![f(150, 120); 3]);
}

#[test]
fn meter_keeps_the_latest_frames() {
    let mut m = Meter::new(3);
    let f = |x: i64| Frame { left: x, right: -x };
    assert_eq!(m.len(), 0);
    m.push(f(1));
    m.push(f(2));
    assert_eq!(m.frames(), vec![f(1), f(2)]);
    m.push(f(3));
    m.push(f(4));
    m.push(f(5));
    assert_eq!(m.frames(), vec![f(3), f(4), f(5)]);
    assert_eq!(m.get(0), f(3));
    assert_eq!(Meter::new(0).frames(), vec![]);
}

#[test]
fn meter_peaks_over_latest_frames() {
    let mut m = Meter::new(4);
    let f = |l: i64, r: i64| Frame { left: l, right: r };
    assert_eq!(m.peak(10), (0, 0));
    m.push(f(-900, 10));
    m.push(f(5, -300));
    m.push(f(20, 7));
    assert_eq!(m.peak(10), (900, 300));
    assert_eq!(m.peak(2), (20, 300));
    assert_eq!(m.peak(1), (20, 7));
    m.push(f(i64::MIN, 0));
    assert_eq!(m.peak(1), (9_223_372_036_854_775_808, 0));
}
