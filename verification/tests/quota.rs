use grate_limiter::{
    BurnWindow, ConcurrencyLimiter, Dimension, FixedWindow, QuotaConfig, QuotaTracker,
    SlidingWindowCounter, Timestamp, TokenBucket, Window, create_tracker,
};

fn ts(ms: u64) -> Timestamp {
    Timestamp(ms * 1_000_000)
}

// --- concurrency limiter ---

#[test]
fn new_has_full_capacity() {
    let cl = ConcurrencyLimiter::new(10);
    assert_eq!(cl.remaining(ts(0)), 10);
}

#[test]
fn record_occupies_slots() {
    let mut cl = ConcurrencyLimiter::new(10);
    cl.record(3, ts(0));
    assert_eq!(cl.remaining(ts(0)), 7);
}

#[test]
fn release_frees_slots() {
    let mut cl = ConcurrencyLimiter::new(10);
    cl.record(5, ts(0));
    assert_eq!(cl.remaining(ts(0)), 5);

    cl.release(3);
    assert_eq!(cl.remaining(ts(0)), 8);
}

#[test]
fn concurrency_check_respects_capacity() {
    let mut cl = ConcurrencyLimiter::new(5);
    assert!(cl.check(5, ts(0)));
    assert!(!cl.check(6, ts(0)));

    cl.record(3, ts(0));
    assert!(cl.check(2, ts(0)));
    assert!(!cl.check(3, ts(0)));
}

#[test]
fn time_does_not_affect_concurrency() {
    let mut cl = ConcurrencyLimiter::new(10);
    cl.record(10, ts(0));
    assert_eq!(cl.remaining(ts(0)), 0);
    // Time passing doesn't free slots
    assert_eq!(cl.remaining(ts(60_000)), 0);
}

#[test]
fn release_never_goes_below_zero_and_reset_frees_all() {
    let mut cl = ConcurrencyLimiter::new(4);
    cl.record(2, ts(0));
    cl.release(9);
    assert_eq!(cl.remaining(ts(0)), 4);
    cl.record(6, ts(0));
    assert_eq!(cl.remaining(ts(0)), 0);
    cl.reset(ts(0));
    assert_eq!(cl.remaining(ts(0)), 4);
    assert_eq!(cl.capacity(), 4);
    assert_eq!(cl.burn_window(ts(10)), BurnWindow { consumed: 0, elapsed_nanos: 0 });
}

// --- fixed window ---

#[test]
fn new_window_full_capacity() {
    let mut fw = FixedWindow::new(100, Window::Minute, ts(0));
    assert_eq!(fw.remaining(ts(0)), 100);
}

#[test]
fn fixed_window_record_reduces_remaining() {
    let mut fw = FixedWindow::new(100, Window::Minute, ts(0));
    fw.record(60, ts(0));
    assert_eq!(fw.remaining(ts(0)), 40);
}

#[test]
fn window_resets_after_expiry() {
    let mut fw = FixedWindow::new(100, Window::Minute, ts(0));
    fw.record(100, ts(0));
    assert_eq!(fw.remaining(ts(0)), 0);

    // After the window expires, capacity should be restored
    assert_eq!(fw.remaining(ts(60_000)), 100);
}

#[test]
fn fixed_window_check_respects_capacity() {
    let mut fw = FixedWindow::new(100, Window::Minute, ts(0));
    assert!(fw.check(100, ts(0)));
    assert!(!fw.check(101, ts(0)));

    fw.record(90, ts(0));
    assert!(fw.check(10, ts(0)));
    assert!(!fw.check(11, ts(0)));
}

#[test]
fn multiple_windows() {
    let mut fw = FixedWindow::new(10, Window::Second, ts(0));
    fw.record(10, ts(0));
    assert_eq!(fw.remaining(ts(0)), 0);
    assert_eq!(fw.remaining(ts(1_000)), 10); // next second
    fw.record(5, ts(1_000));
    assert_eq!(fw.remaining(ts(1_000)), 5);
    assert_eq!(fw.remaining(ts(2_000)), 10); // next window
}

#[test]
fn fixed_window_aligns_to_window_boundaries() {
    let mut fw = FixedWindow::new(10, Window::Second, ts(0));
    fw.record(4, ts(2_500));
    // The window that holds 2.5s started at 2s; at 2.9s it still counts the 4 units.
    assert_eq!(fw.remaining(ts(2_900)), 6);
    let burn = fw.burn_window(ts(2_900));
    assert_eq!(burn, BurnWindow { consumed: 4, elapsed_nanos: 900_000_000 });
    assert_eq!(fw.remaining(ts(3_000)), 10);
    fw.reset(ts(3_100));
    assert_eq!(fw.capacity(), 10);
}

// --- sliding window ---

#[test]
fn new_window_has_full_capacity() {
    let mut sw = SlidingWindowCounter::new(100, Window::Minute, ts(0));
    assert_eq!(sw.remaining(ts(0)), 100);
}

#[test]
fn sliding_window_record_reduces_remaining() {
    let mut sw = SlidingWindowCounter::new(100, Window::Minute, ts(0));
    sw.record(40, ts(0));
    assert_eq!(sw.remaining(ts(0)), 60);
}

#[test]
fn window_rotation_interpolates() {
    let mut sw = SlidingWindowCounter::new(100, Window::Minute, ts(0));
    sw.record(80, ts(0));

    // At 60s, window rotates. Previous window had 80.
    // At 90s (halfway through new window), 50% of previous should count.
    let remaining = sw.remaining(ts(90_000));
    // ~50% of 80 = 40 used from previous, so ~60 remaining
    assert!((55..=65).contains(&remaining), "remaining={remaining}");
}

#[test]
fn full_window_resets() {
    let mut sw = SlidingWindowCounter::new(100, Window::Minute, ts(0));
    sw.record(100, ts(0));
    assert_eq!(sw.remaining(ts(0)), 0);

    // After 2 full windows, everything should be reset
    assert_eq!(sw.remaining(ts(120_001)), 100);
}

#[test]
fn sliding_window_check_respects_capacity() {
    let mut sw = SlidingWindowCounter::new(100, Window::Minute, ts(0));
    assert!(sw.check(100, ts(0)));
    assert!(!sw.check(101, ts(0)));

    sw.record(50, ts(0));
    assert!(sw.check(50, ts(0)));
    assert!(!sw.check(51, ts(0)));
}

#[test]
fn sliding_window_weighs_previous_window_exactly() {
    let mut sw = SlidingWindowCounter::new(100, Window::Second, ts(0));
    sw.record(80, ts(0));
    // 1.25s: the 80 units weigh 3/4 in the second window: 60 used.
    assert_eq!(sw.remaining(ts(1_250)), 40);
    sw.record(10, ts(1_250));
    // 1.5s: half of 80 plus the 10 of the current window.
    assert_eq!(sw.remaining(ts(1_500)), 50);
    assert_eq!(sw.burn_window(ts(1_500)), BurnWindow { consumed: 10, elapsed_nanos: 500_000_000 });
    sw.reset(ts(1_500));
    assert_eq!(sw.remaining(ts(1_500)), 100);
}

// --- token bucket ---

#[test]
fn new_bucket_is_full() {
    let mut bucket = TokenBucket::new(100, Window::Minute, ts(0));
    assert_eq!(bucket.remaining(ts(0)), 100);
    assert!(bucket.check(100, ts(0)));
    assert!(!bucket.check(101, ts(0)));
}

#[test]
fn consume_reduces_remaining() {
    let mut bucket = TokenBucket::new(100, Window::Minute, ts(0));
    bucket.record(30, ts(0));
    assert_eq!(bucket.remaining(ts(0)), 70);
}

#[test]
fn tokens_refill_over_time() {
    let mut bucket = TokenBucket::new(60, Window::Minute, ts(0));
    bucket.record(60, ts(0));
    assert_eq!(bucket.remaining(ts(0)), 0);

    // After 30 seconds, half the tokens should refill
    assert_eq!(bucket.remaining(ts(30_000)), 30);

    // After 60 seconds, fully refilled
    assert_eq!(bucket.remaining(ts(60_000)), 60);
}

#[test]
fn never_exceeds_capacity() {
    let mut bucket = TokenBucket::new(100, Window::Minute, ts(0));
    // Wait way longer than a window
    assert_eq!(bucket.remaining(ts(120_000)), 100);
}

#[test]
fn reset_restores_full_capacity() {
    let mut bucket = TokenBucket::new(100, Window::Minute, ts(0));
    bucket.record(100, ts(0));
    assert_eq!(bucket.remaining(ts(0)), 0);

    bucket.reset(ts(1_000));
    assert_eq!(bucket.remaining(ts(1_000)), 100);
}

#[test]
fn bucket_burn_window_counts_consumption() {
    let mut bucket = TokenBucket::new(100, Window::Minute, ts(0));
    bucket.record(10, ts(1_000)); // 10 units at t=1s
    bucket.record(10, ts(2_000)); // 10 more at t=2s
    // 20 units over the 5 seconds since the burn-rate window started.
    assert_eq!(bucket.burn_window(ts(5_000)), BurnWindow { consumed: 20, elapsed_nanos: 5_000_000_000 });
}

#[test]
fn bucket_burn_window_restarts_after_a_full_window() {
    let mut bucket = TokenBucket::new(100, Window::Second, ts(0));
    bucket.record(50, ts(100));
    // The refill at 1.2s comes a full window after the burn window started: it restarts.
    assert_eq!(bucket.remaining(ts(1_200)), 100);
    assert_eq!(bucket.burn_window(ts(1_500)), BurnWindow { consumed: 0, elapsed_nanos: 300_000_000 });
}

#[test]
fn bucket_refill_keeps_fractions_until_a_whole_unit_accrues() {
    // One token per minute: 1 ns accrues 1/60000 of a fixed-point unit, nothing whole.
    let mut bucket = TokenBucket::new(1, Window::Minute, ts(0));
    bucket.record(1, ts(0));
    assert_eq!(bucket.remaining(Timestamp(1)), 0);
    assert_eq!(bucket.remaining(ts(60_000)), 1);
    assert_eq!(bucket.capacity(), 1);
}

// --- trackers of any strategy ---

#[test]
fn create_tracker_picks_strategy_by_dimension() {
    let concurrency = QuotaConfig { dimension: Dimension::Concurrency, limit: 3, window: None };
    let mut t = create_tracker(&concurrency, ts(0));
    assert!(matches!(t, QuotaTracker::Concurrency(_)));
    t.record(2, ts(0));
    assert_eq!(t.remaining(ts(90_000)), 1);

    let tokens = QuotaConfig { dimension: Dimension::Tokens, limit: 60, window: None };
    let mut b = create_tracker(&tokens, ts(0));
    assert!(matches!(b, QuotaTracker::Bucket(_)));
    b.record(60, ts(0));
    // No window given: a minute, so 30 tokens come back in 30 seconds.
    assert_eq!(b.remaining(ts(30_000)), 30);
    let sample = b.sample(ts(30_000));
    assert_eq!(sample.capacity, 60);
    assert_eq!(sample.remaining, 30);
    assert_eq!(sample.burn, BurnWindow { consumed: 60, elapsed_nanos: 30_000_000_000 });
}

#[test]
fn window_lengths() {
    assert_eq!(Window::Second.as_nanos(), 1_000_000_000);
    assert_eq!(Window::Minute.as_nanos(), 60_000_000_000);
    assert_eq!(Window::Hour.as_secs(), 3_600);
    assert_eq!(Window::Day.as_secs(), 86_400);
    assert_eq!(Window::Day.as_nanos(), 86_400_000_000_000);
}
