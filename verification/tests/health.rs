use grate_limiter::{HealthState, Metrics, Timestamp};

fn ms(n: u64) -> Timestamp {
    Timestamp(n * 1_000_000)
}

#[test]
fn fresh_health_has_no_cooldown() {
    let h = HealthState::new(ms(0));
    assert!(!h.is_in_cooldown(ms(0)));
    assert_eq!(h.total_observations(), 0);
    assert_eq!(h.current_cooldown_secs(), 0);
}

#[test]
fn consecutive_failures_report_their_excess() {
    let mut h = HealthState::new(ms(0));
    assert_eq!(h.record_failure(ms(1_000), 3), None);
    assert_eq!(h.record_failure(ms(2_000), 3), None);
    assert_eq!(h.record_failure(ms(3_000), 3), Some(0));
    h.start_cooldown(ms(3_000), 30, 600);
    assert!(h.is_in_cooldown(ms(3_000)));
    assert!(h.is_in_cooldown(ms(32_000)));
    assert!(!h.is_in_cooldown(ms(34_000)));
    assert_eq!(h.record_failure(ms(33_000), 3), Some(1));
    h.start_cooldown(ms(33_000), 60, 600);
    assert!(h.is_in_cooldown(ms(92_000)));
    assert_eq!(h.current_cooldown_secs(), 60);
}

#[test]
fn success_ends_the_streak_but_not_the_cooldown() {
    let mut h = HealthState::new(ms(0));
    h.record_failure(ms(1), 1);
    h.start_cooldown(ms(1), 10, 600);
    h.record_success(ms(2));
    assert_eq!(h.consecutive_failures(), 0);
    assert!(h.is_in_cooldown(ms(3)));
    assert_eq!(h.total_successes(), 1);
    assert_eq!(h.total_observations(), 2);
    assert_eq!(h.since_last_observation(ms(12)), 10_000_000);
}

#[test]
fn cooldown_is_capped() {
    let mut h = HealthState::new(ms(0));
    h.start_cooldown(ms(0), 10_000, 600);
    assert_eq!(h.current_cooldown_secs(), 600);
    assert!(h.is_in_cooldown(ms(599_999)));
    assert!(!h.is_in_cooldown(ms(600_000)));
}

#[test]
fn metrics_start_at_zero() {
    let m = Metrics::new();
    assert_eq!(m.selects(), 0);
    assert_eq!(m.observations(), 0);
    assert_eq!(m.cooldowns_triggered(), 0);
    assert_eq!(m.no_provider_available(), 0);
    let d = Metrics::default();
    assert_eq!(d.selects(), 0);
}

/// The cooldown the engine starts for a streak `excess` failures past the trigger:
/// the base cooldown times the multiplier to the power of the excess.
fn cooldown_secs(base: u64, multiplier: f64, excess: u32) -> u64 {
    (base as f64 * multiplier.powi(excess as i32)) as u64
}

#[test]
fn consecutive_failures_trigger_cooldown() {
    let mut h = HealthState::new(ms(0));

    assert_eq!(h.record_failure(ms(1_000), 3), None);
    assert!(!h.is_in_cooldown(ms(1_000)));

    assert_eq!(h.record_failure(ms(2_000), 3), None);
    assert!(!h.is_in_cooldown(ms(2_000)));

    let excess = h.record_failure(ms(3_000), 3).unwrap();
    h.start_cooldown(ms(3_000), cooldown_secs(30, 2.0, excess), 600);
    assert!(h.is_in_cooldown(ms(3_000)));
    assert!(h.is_in_cooldown(ms(32_000)));

    assert!(!h.is_in_cooldown(ms(34_000)));
}

#[test]
fn cooldown_grows_exponentially() {
    let mut h = HealthState::new(ms(0));

    assert_eq!(h.record_failure(ms(1_000), 2), None);
    let excess = h.record_failure(ms(2_000), 2).unwrap();
    h.start_cooldown(ms(2_000), cooldown_secs(30, 2.0, excess), 600);
    assert!(h.is_in_cooldown(ms(2_000)));

    let excess = h.record_failure(ms(33_000), 2).unwrap();
    assert_eq!(excess, 1);
    h.start_cooldown(ms(33_000), cooldown_secs(30, 2.0, excess), 600);
    assert!(h.is_in_cooldown(ms(92_000)));
}
