use tracker_synth::envelope::Envelope;

fn spec_envelope() -> Envelope {
    Envelope::new(10_000, 10_000, 500_000, 0, 700_000)
}

#[test]
fn attack_starts_at_zero() {
    let e = spec_envelope();
    assert_eq!(e.level(0, None), 0);
}

#[test]
fn attack_reaches_decay_start_level() {
    let e = spec_envelope();
    assert_eq!(e.level(10_000, None), e.start_level);
    let full = Envelope::new(10_000, 10_000, 500_000, 1_000_000, 700_000);
    assert_eq!(full.level(5_000, None), 500_000);
    assert_eq!(full.level(10_000, None), 1_000_000);
    assert_eq!(full.level(15_000, None), 850_000);
}

#[test]
fn decay_reaches_sustain() {
    let e = spec_envelope();
    assert_eq!(e.level(15_000, None), 350_000);
    assert_eq!(e.level(20_000, None), 700_000);
    assert_eq!(e.level(5_000_000, None), 700_000);
}

#[test]
fn release_falls_linearly_to_zero() {
    let e = spec_envelope();
    let released_at = 20_000;
    assert_eq!(e.level(released_at, Some(0)), 700_000);
    assert_eq!(e.level(released_at + 250_000, Some(250_000)), 350_000);
    assert_eq!(e.level(released_at + 125_000, Some(125_000)), 525_000);
    assert_eq!(e.level(released_at + 500_000, Some(500_000)), 0);
    assert_eq!(e.level(released_at + 700_000, Some(700_000)), 0);
}

#[test]
fn release_starts_from_actual_level() {
    let e = Envelope::new(10_000, 10_000, 100_000, 1_000_000, 0);
    // released halfway through the decay, at level 0.5
    assert_eq!(e.level(15_000, Some(0)), 500_000);
    assert_eq!(e.level(65_000, Some(50_000)), 250_000);
}

#[test]
fn done_only_after_release_time() {
    let e = spec_envelope();
    assert!(e.done(Some(500_001)));
    assert!(!e.done(Some(490_000)));
    assert!(!e.done(Some(500_000)));
    assert!(!e.done(None));
}
