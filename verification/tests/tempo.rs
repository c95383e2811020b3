use lightspeed::tempo::{cooldown_samples, OnsetGate, TapTempo};

const MS: u64 = 1_000_000;

#[test]
fn tap_tempo_weighted_median() {
    let mut t = TapTempo::new();
    let first = t.on_onset(0);
    assert!(first.accepted);
    assert_eq!(first.median_interval, None);
    // Too close to the last onset: ignored.
    let close = t.on_onset(100 * MS);
    assert!(!close.accepted);
    assert_eq!(close.median_interval, None);
    let second = t.on_onset(500 * MS);
    assert!(second.accepted);
    assert_eq!(second.median_interval, None);
    assert_eq!(t.interval_count(), 1);
    // Intervals [500, 600] ms weigh 1 and 2: the median is 600 ms.
    assert_eq!(t.on_onset(1100 * MS).median_interval, Some(600 * MS));
    // Intervals [500, 600, 400] ms weigh 1, 2, 3: 400 ms carries half.
    assert_eq!(t.on_onset(1500 * MS).median_interval, Some(400 * MS));
    assert_eq!(t.interval_count(), 3);
}

#[test]
fn out_of_range_interval_is_not_kept() {
    let mut t = TapTempo::new();
    t.on_onset(0);
    // 250 ms: accepted as a tap but too fast to be a beat.
    let o = t.on_onset(250 * MS);
    assert!(o.accepted);
    assert_eq!(o.median_interval, None);
    assert_eq!(t.interval_count(), 0);
    // 1.8 s: too slow, but not yet a silence.
    let o = t.on_onset(2050 * MS);
    assert!(o.accepted);
    assert_eq!(t.interval_count(), 0);
}

#[test]
fn long_silence_forgets_intervals() {
    let mut t = TapTempo::new();
    t.on_onset(0);
    t.on_onset(500 * MS);
    t.on_onset(1000 * MS);
    assert_eq!(t.interval_count(), 2);
    let o = t.on_onset(3500 * MS);
    assert!(o.accepted);
    assert_eq!(o.median_interval, None);
    assert_eq!(t.interval_count(), 0);
}

#[test]
fn at_most_twelve_intervals_are_kept() {
    let mut t = TapTempo::new();
    let mut now = 0;
    t.on_onset(now);
    for _ in 0..20 {
        now += 500 * MS;
        t.on_onset(now);
    }
    assert_eq!(t.interval_count(), 12);
}

#[test]
fn exact_boundaries() {
    let mut t = TapTempo::new();
    t.on_onset(1000 * MS);
    // Exactly 200 ms later: not more than the minimum gap.
    assert!(!t.on_onset(1200 * MS).accepted);
    // Exactly 300 ms: not a beat interval.
    assert!(t.on_onset(1300 * MS).accepted);
    assert_eq!(t.interval_count(), 0);
    // 300 ms + 1 ns: a beat interval.
    assert!(t.on_onset(1600 * MS + 1).accepted);
    assert_eq!(t.interval_count(), 1);
}

#[test]
fn cooldown_is_120_ms_of_samples() {
    assert_eq!(cooldown_samples(48_000), 5_760);
    assert_eq!(cooldown_samples(44_100), 5_292);
    assert_eq!(cooldown_samples(0), 0);
}

#[test]
fn onset_gate_debounces() {
    let mut g = OnsetGate::new();
    assert!(g.step(512, 48_000, true));
    assert_eq!(g.cooldown, 5_760);
    // Still cooling down.
    assert!(!g.step(512, 48_000, true));
    assert_eq!(g.cooldown, 5_248);
    // Not rising: no onset even after the cooldown ran out.
    assert!(!g.step(10_000, 48_000, false));
    assert_eq!(g.cooldown, 0);
    assert!(g.step(512, 48_000, true));
}

#[test]
fn onset_gate_quiet_frames_keep_zero_cooldown() {
    let mut g = OnsetGate::new();
    assert!(!g.step(256, 44_100, false));
    assert_eq!(g.cooldown, 0);
}
