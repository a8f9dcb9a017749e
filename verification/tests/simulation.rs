use grate_limiter::{
    LoadProfile, SimTally, StatusClass, TrafficGenerator, TrafficPattern, simulation_steps,
    tally_request,
};

#[test]
fn steady_traffic_sends_a_tenth_per_step() {
    let p = TrafficPattern::Steady { rps: 105 };
    assert_eq!(p.requests_at(0), 10);
    assert_eq!(p.requests_at(1_000), 10);
}

#[test]
fn bursty_traffic_follows_its_cycle() {
    let p = LoadProfile::Bursty.to_traffic_pattern();
    assert_eq!(p.requests_at(0), 50);
    assert_eq!(p.requests_at(9), 50);
    assert_eq!(p.requests_at(10), 5);
    assert_eq!(p.requests_at(100), 50);
    assert_eq!(p.requests_at(150), 5);
}

#[test]
fn ramp_traffic_moves_linearly() {
    let p = LoadProfile::CascadingFailure.to_traffic_pattern();
    assert_eq!(p.requests_at(0), 5);
    assert_eq!(p.requests_at(50), 17); // 175 rps
    assert_eq!(p.requests_at(100), 30);
    assert_eq!(p.requests_at(1_000), 30);
    let down = TrafficPattern::Ramp { start_rps: 300, end_rps: 100, ramp_steps: 4 };
    assert_eq!(down.requests_at(1), 25);
    assert_eq!(down.requests_at(3), 15);
    let instant = TrafficPattern::Ramp { start_rps: 10, end_rps: 90, ramp_steps: 0 };
    assert_eq!(instant.requests_at(0), 9);
}

#[test]
fn custom_traffic_repeats_its_last_count() {
    let p = TrafficPattern::Custom(vec![1, 4, 2]);
    assert_eq!(p.requests_at(0), 1);
    assert_eq!(p.requests_at(2), 2);
    assert_eq!(p.requests_at(7), 2);
    assert_eq!(TrafficPattern::Custom(vec![]).requests_at(3), 0);
}

#[test]
fn generator_walks_the_steps() {
    let mut g = TrafficGenerator::new(TrafficPattern::Custom(vec![3, 1]));
    assert_eq!(g.next_batch(), 3);
    assert_eq!(g.next_batch(), 1);
    assert_eq!(g.next_batch(), 1);
    assert_eq!(g.step, 3);
    let mut herd = TrafficGenerator::new(LoadProfile::ThunderingHerd.to_traffic_pattern());
    assert_eq!(herd.next_batch(), 100);
    assert!(matches!(LoadProfile::Steady.to_traffic_pattern(), TrafficPattern::Steady { rps: 100 }));
    assert!(matches!(LoadProfile::QuotaExhaustion.to_traffic_pattern(), TrafficPattern::Steady { rps: 500 }));
}

#[test]
fn simulation_runs_ten_steps_a_second() {
    assert_eq!(simulation_steps(0), 0);
    assert_eq!(simulation_steps(1), 10);
    assert_eq!(simulation_steps(60), 600);
}

#[test]
fn tally_counts_each_request() {
    let mut t = SimTally::new();
    tally_request(&mut t, Some("a".to_string()), Some(StatusClass::Success));
    tally_request(&mut t, Some("a".to_string()), Some(StatusClass::RateLimited));
    tally_request(&mut t, None, None);
    tally_request(&mut t, Some("b".to_string()), Some(StatusClass::ServerError));
    tally_request(&mut t, Some("a".to_string()), Some(StatusClass::RateLimited));
    assert_eq!(t.total, 5);
    assert_eq!(t.false_rejects, 1);
    assert_eq!(t.switches, 2);
    assert_eq!(t.unexpected_429s, 2);
    assert_eq!(t.last_provider, Some("a".to_string()));
}

#[test]
fn generator_replays_its_pattern() {
    let p = TrafficPattern::Custom(vec![3, 1, 4]);
    let mut g = TrafficGenerator::new(p.clone());
    for i in 0..6u64 {
        assert_eq!(g.next_batch(), p.requests_at(i));
    }
    assert_eq!(g.step, 6);
}
