use tracker_synth::track::Track;
use tracker_synth::transport::Transport;

#[test]
fn tick_lasts_a_forty_eighth_of_a_second_at_120_bpm() {
    let mut t = Transport::new(120);
    t.start(0);
    // 20 833 microseconds are not yet a tick, 20 834 are
    assert!(t.advance(20_833).is_empty());
    assert_eq!(t.tick_count, 0);
    t.advance(20_834);
    assert_eq!(t.tick_count, 1);
}

#[test]
fn six_ticks_fire_one_step() {
    let mut t = Transport::new(120);
    t.start(0);
    let fired = t.advance(125_000);
    assert_eq!(fired, vec![125_000]);
    assert_eq!(t.tick_count, 6);
    assert_eq!(t.remaining_ticks, 6);
    assert_eq!(t.acc, 0);
}

#[test]
fn catch_up_fires_every_missed_step_at_its_time() {
    let mut t = Transport::new(120);
    t.start(1_000);
    let fired = t.advance(1_000 + 3 * 125_000 + 10);
    assert_eq!(fired, vec![126_000, 251_000, 376_000]);
}

#[test]
fn small_updates_add_up() {
    let mut t = Transport::new(120);
    t.start(0);
    let mut all = Vec::new();
    let mut now = 0;
    while now < 500_000 {
        now += 1_000;
        all.extend(t.advance(now));
    }
    assert_eq!(all, vec![125_000, 250_000, 375_000, 500_000]);
}

#[test]
fn stopped_transport_only_moves_its_time_base() {
    let mut t = Transport::new(120);
    assert!(t.advance(10_000_000).is_empty());
    assert_eq!(t.last_update, Some(10_000_000));
    t.set_playing(true);
    t.set_playing(false);
    assert!(t.advance(20_000_000).is_empty());
    t.set_playing(true);
    // no burst of catch-up ticks on resume
    assert!(t.advance(20_100_000).is_empty());
    assert_eq!(t.advance(20_125_000), vec![20_125_000]);
}

#[test]
fn step_cursor_wraps_and_moves_phrase_cursor() {
    let mut tr = Track::new();
    for _ in 0..15 {
        tr.step();
    }
    assert_eq!((tr.chain_cursor, tr.phrase_cursor, tr.step_cursor), (0, 0, 15));
    tr.step();
    assert_eq!((tr.chain_cursor, tr.phrase_cursor, tr.step_cursor), (0, 1, 0));
    for _ in 0..(15 * 16) {
        tr.step();
    }
    assert_eq!((tr.chain_cursor, tr.phrase_cursor, tr.step_cursor), (1, 0, 0));
}
