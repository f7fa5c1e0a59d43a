use tang_cli::source::{ConstantSignal, RandomSignal, Signal, ValueSource};

#[test]
fn constant_signal_always_returns_the_constant() {
    let mut s = ConstantSignal::new(7u64);
    assert_eq!(s.next(), 7);
    assert_eq!(s.next(), 7);
    assert_eq!(s.constant, 7);
}

#[test]
fn constant_signal_over_another_type() {
    let mut s = ConstantSignal::new(true);
    assert!(s.next());
    assert!(s.next());
}

#[test]
fn random_signal_single_value_range_is_forced() {
    // the only value in [7, 8) is 7, so the draw is fully determined
    let mut s = RandomSignal::new(7, 8);
    assert_eq!(s.next(), 7);
    assert_eq!(s.next(), 7);
}

#[test]
fn random_signal_stays_in_its_range() {
    let mut s = RandomSignal::new(10, 20);
    for _ in 0..100 {
        let v = s.next();
        assert!((10..20).contains(&v));
    }
}

#[test]
fn signal_tick_shifts_and_appends_from_the_source() {
    let mut sig = Signal { source: ConstantSignal::new(9u64), points: vec![1, 2, 3, 4], tick_rate: 2 };
    sig.on_tick();
    assert_eq!(sig.points, vec![3, 4, 9, 9]);
    sig.on_tick();
    assert_eq!(sig.points, vec![9, 9, 9, 9]);
}

#[test]
fn signal_tick_rate_zero_changes_nothing() {
    let mut sig = Signal { source: ConstantSignal::new(5u64), points: vec![1, 2], tick_rate: 0 };
    sig.on_tick();
    assert_eq!(sig.points, vec![1, 2]);
}

#[test]
fn signal_over_a_random_source_keeps_length_and_bounds() {
    let mut sig = Signal { source: RandomSignal::new(0, 50), points: vec![0, 0, 0], tick_rate: 1 };
    for _ in 0..10 {
        sig.on_tick();
        assert_eq!(sig.points.len(), 3);
        assert!(sig.points.last().unwrap() < &50);
    }
}
