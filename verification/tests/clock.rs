use grate_limiter::{Clock, MockClock, RealClock, Timestamp};

#[test]
fn timestamp_arithmetic() {
    let t = Timestamp::zero();
    assert_eq!(t.as_nanos(), 0);
    assert_eq!(t.as_millis(), 0);

    let t2 = t.add_millis(1500);
    assert_eq!(t2.as_millis(), 1500);
    assert_eq!(t2.as_nanos(), 1_500_000_000);

    let t3 = t2.add_secs(2);
    assert_eq!(t3.as_millis(), 3500);

    assert_eq!(t3.duration_since(t2), 2_000_000_000);
    assert_eq!(t2.duration_since(t3), 0); // saturating
}

#[test]
fn mock_clock_advances() {
    let mut clock = MockClock::new();
    assert_eq!(clock.now(), Timestamp::zero());

    clock.advance_ms(100);
    assert_eq!(clock.now().as_millis(), 100);

    clock.advance_secs(1);
    assert_eq!(clock.now().as_millis(), 1100);
}

#[test]
fn real_clock_monotonic() {
    let clock = RealClock::new();
    let t1 = clock.now();
    let t2 = clock.now();
    assert!(t2 >= t1);
}

#[test]
fn timestamp_ordering() {
    let a = Timestamp(100);
    let b = Timestamp(200);
    assert!(a < b);
    assert!(b > a);
    assert_eq!(a, Timestamp(100));
}

#[test]
fn add_nanos_saturates_at_the_largest_timestamp() {
    let t = Timestamp(u64::MAX - 5);
    assert_eq!(t.add_nanos(10), Timestamp(u64::MAX));
    assert_eq!(Timestamp(7).add_nanos(3).duration_since(Timestamp(7)), 3);
}

#[test]
fn mock_clock_at_and_set() {
    let mut clock = MockClock::at(Timestamp(42));
    assert_eq!(clock.now(), Timestamp(42));
    clock.set(Timestamp(5_000_000_000));
    assert_eq!(clock.now().as_nanos(), 5_000_000_000);
    clock.advance_nanos(7);
    assert_eq!(clock.now().as_nanos(), 5_000_000_007);
}

#[test]
fn mock_clock_advances_compose() {
    let mut one = MockClock::new();
    one.advance_ms(250);
    one.advance_ms(750);
    let mut other = MockClock::new();
    other.advance_secs(1);
    assert_eq!(one.now(), other.now());
}

#[test]
fn mock_clock_wraps_like_an_atomic_add() {
    let mut clock = MockClock::at(Timestamp(u64::MAX));
    clock.advance_nanos(2);
    assert_eq!(clock.now(), Timestamp(1));
}

#[test]
fn mock_clock_set() {
    let mut clock = MockClock::new();
    clock.set(Timestamp(5_000_000_000));
    assert_eq!(clock.now().as_nanos() as f64 / 1_000_000_000.0, 5.0);
}

#[test]
fn clocks_have_defaults() {
    let mock = MockClock::default();
    assert_eq!(mock.now(), Timestamp::zero());
    let real = RealClock::default();
    let t1 = real.now();
    assert!(real.now() >= t1);
}
