use corruption_spread::clock::CorruptionTimer;

const SECOND: u64 = 1_000_000_000;

#[test]
fn period_decays_by_nine_tenths() {
    let mut t = CorruptionTimer::new(10 * SECOND, 9, 10);
    let mut periods = vec![];
    for _ in 0..4 {
        let p = t.period;
        assert!(t.advance(p));
        assert_eq!(t.period, p);
        t.decay();
        periods.push(t.period);
        assert_eq!(t.elapsed, 0);
    }
    assert_eq!(periods, vec![9_000_000_000, 8_100_000_000, 7_290_000_000, 6_561_000_000]);
}

#[test]
fn period_decays_by_nineteen_twentieths() {
    let mut t = CorruptionTimer::new(10 * SECOND, 19, 20);
    t.decay();
    assert_eq!(t.period, 9_500_000_000);
    t.decay();
    assert_eq!(t.period, 9_025_000_000);
}

#[test]
fn period_rounds_down_within_one_nanosecond_per_event() {
    let mut t = CorruptionTimer::new(1_000, 2, 3);
    let mut exact: f64 = 1_000.0;
    let mut periods = vec![];
    for n in 1..=10u64 {
        t.decay();
        periods.push(t.period);
        exact *= 2.0 / 3.0;
        let p = t.period as f64;
        assert!(p <= exact + 1e-9);
        assert!(exact <= p + n as f64 + 1e-9);
    }
    assert_eq!(periods, vec![666, 444, 296, 197, 131, 87, 58, 38, 25, 16]);
}

#[test]
fn firing_alone_keeps_the_period() {
    let mut t = CorruptionTimer::new(10, 1, 2);
    assert!(!t.advance(3));
    assert!(!t.advance(6));
    assert_eq!(t.elapsed, 9);
    assert!(t.advance(1));
    assert_eq!(t.period, 10);
    assert_eq!(t.elapsed, 0);
    assert!(t.advance(u64::MAX));
    assert_eq!(t.period, 10);
}

#[test]
fn decay_restarts_the_countdown() {
    let mut t = CorruptionTimer::new(10, 1, 2);
    assert!(!t.advance(4));
    t.decay();
    assert_eq!(t.period, 5);
    assert_eq!(t.elapsed, 0);
    assert!(!t.advance(4));
    assert!(t.advance(1));
}

#[test]
fn zero_period_fires_every_frame() {
    let mut t = CorruptionTimer::new(0, 9, 10);
    assert!(t.advance(0));
    assert!(t.advance(0));
    t.decay();
    assert_eq!(t.period, 0);
}
