use tracker_synth::tone::{semitone_down, semitone_up, Tone};

#[test]
fn a4_is_440_hz() {
    let t = Tone { octave: 4, semitone: 0 };
    assert_eq!(t.frequency_microhertz(), 440_000_000);
    assert_eq!(t.frequency_microhertz() as f64 / 1e6, 440.0);
}

#[test]
fn octave_up_doubles_frequency() {
    let t = Tone { octave: 4, semitone: 0 };
    let u = t.up(12);
    assert_eq!(u, Tone { octave: 5, semitone: 0 });
    assert_eq!(u.frequency_microhertz(), 2 * t.frequency_microhertz());
    let low = Tone { octave: 2, semitone: -9 };
    let f = low.frequency_microhertz() as i64;
    let g = low.up(12).frequency_microhertz() as i64;
    assert!(g - 2 * f >= 0 && g - 2 * f <= 1);
}

#[test]
fn semitone_down_divides_by_twelfth_root_of_two() {
    let t = Tone { octave: 4, semitone: 0 };
    let d = t.down(1);
    assert_eq!(d, Tone { octave: 4, semitone: -1 });
    let expected = 440.0 / 2f64.powf(1.0 / 12.0);
    let got = d.frequency_microhertz() as f64 / 1e6;
    assert!((got - expected).abs() < 1e-4 * expected);
}

#[test]
fn up_and_down_wrap_through_octaves() {
    let b4 = Tone { octave: 4, semitone: 2 };
    assert_eq!(b4.up(1), Tone { octave: 5, semitone: -9 });
    let c4 = Tone { octave: 4, semitone: -9 };
    assert_eq!(c4.down(1), Tone { octave: 3, semitone: 2 });
    assert_eq!(c4.up(25), Tone { octave: 6, semitone: -8 });
    assert_eq!(c4.down(25), Tone { octave: 1, semitone: 2 });
    assert_eq!(c4.semitone_offset(), -9);
    assert_eq!(c4.up(25).semitone_offset(), 16);
}

#[test]
fn labels() {
    assert_eq!(Tone { octave: 4, semitone: 0 }.get_string(), "A-4");
    assert_eq!(Tone { octave: 4, semitone: -9 }.get_string(), "C-4");
    assert_eq!(Tone { octave: 3, semitone: 1 }.get_string(), "A#3");
    assert_eq!(Tone { octave: -1, semitone: -8 }.get_string(), "C#-1");
    assert_eq!(Tone { octave: 12, semitone: 2 }.get_string(), "B-12");
}

#[test]
fn low_octaves_round_down() {
    assert_eq!(Tone { octave: 3, semitone: 0 }.frequency_microhertz(), 220_000_000);
    assert_eq!(Tone { octave: 0, semitone: -9 }.frequency_microhertz(), 261_625_565 / 16);
    assert_eq!(Tone { octave: -40, semitone: 0 }.frequency_microhertz(), 0);
    assert_eq!(Tone { octave: 10, semitone: 0 }.frequency_microhertz(), 440_000_000 * 64);
    assert_eq!(Tone { octave: 39, semitone: 2 }.frequency_microhertz(), 493_883_301 << 35);
}

#[test]
fn low_octaves_stay_within_a_ten_thousandth() {
    for octave in -6..4 {
        for semitone in -9..=2 {
            let t = Tone { octave, semitone };
            let exact = 440.0 * 2f64.powf(t.semitone_offset() as f64 / 12.0);
            let got = t.frequency_microhertz() as f64 / 1e6;
            assert!(got > 0.0);
            assert!((got - exact).abs() <= 1e-4 * exact, "{octave} {semitone}: {got} vs {exact}");
        }
    }
    // C of octave -5
    let c = Tone { octave: -5, semitone: -9 }.frequency_microhertz() as f64 / 1e6;
    assert!((c - 0.510987).abs() < 1e-5);
}

#[test]
fn editing_an_empty_tone_gives_a4() {
    let mut t: Option<Tone> = None;
    semitone_up(&mut t, 1);
    assert_eq!(t, Some(Tone { octave: 4, semitone: 0 }));
    semitone_up(&mut t, 12);
    assert_eq!(t, Some(Tone { octave: 5, semitone: 0 }));
    semitone_down(&mut t, 1);
    assert_eq!(t, Some(Tone { octave: 5, semitone: -1 }));
    let mut e: Option<Tone> = None;
    semitone_down(&mut e, 3);
    assert_eq!(e, Some(Tone { octave: 4, semitone: 0 }));
}
