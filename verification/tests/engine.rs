use grate_limiter::{
    CapabilityConfig, CapabilityProvider, Dimension, EngineCore, Error, Observation, Outcome,
    ProviderConfig, QuotaConfig, StatusClass, Timestamp, Usage, Window, rank_descending,
};

fn ms(n: u64) -> Timestamp {
    Timestamp(n * 1_000_000)
}

fn provider(name: &str, limit: u64, priority: u16) -> ProviderConfig {
    ProviderConfig {
        name: name.into(),
        quotas: vec![QuotaConfig { dimension: Dimension::Requests, limit, window: Some(Window::Minute) }],
        priority,
        cooldown_seconds: 30,
    }
}

fn setup_engine() -> EngineCore<()> {
    let mut engine = EngineCore::new(3, 600);
    engine.upsert_provider(provider("openai", 100, 10), ms(0), ());
    engine.upsert_provider(provider("anthropic", 80, 8), ms(0), ());
    engine.upsert_capability(CapabilityConfig {
        name: "chat".into(),
        providers: vec![
            CapabilityProvider { provider: "openai".into(), priority: 10 },
            CapabilityProvider { provider: "anthropic".into(), priority: 8 },
        ],
    });
    engine
}

fn observation(provider: &str, requests: u64, status: StatusClass) -> Observation {
    Observation {
        provider: provider.into(),
        capability: Some("chat".into()),
        usage: Usage { requests, ..Default::default() },
        outcome: Outcome { status, latency_ms: 100 },
    }
}

/// Observes and, when a cooldown is due, starts one that doubles with each failure
/// past the trigger count.
fn observe(engine: &mut EngineCore<()>, obs: &Observation, now: Timestamp) {
    let step = engine.observe(obs, now).unwrap();
    if let Some(excess) = step.failure_excess {
        engine.apply_cooldown(&obs.provider, now, step.cooldown_seconds << excess);
    }
}

#[test]
fn select_unknown_capability_errors() {
    let mut engine = setup_engine();
    let result = engine.select_candidates("nonexistent", ms(0));
    assert!(matches!(result, Err(Error::UnknownCapability(_))));
}

#[test]
fn observe_unknown_provider_errors() {
    let mut engine = setup_engine();
    let result = engine.observe(
        &Observation {
            provider: "nonexistent".into(),
            capability: None,
            usage: Usage::default(),
            outcome: Outcome { status: StatusClass::Success, latency_ms: 100 },
        },
        ms(0),
    );
    assert!(matches!(result, Err(Error::UnknownProvider(_))));
}

#[test]
fn metrics_increment() {
    let mut engine = setup_engine();

    engine.select_candidates("chat", ms(0)).unwrap();
    engine.select_candidates("chat", ms(0)).unwrap();
    assert_eq!(engine.metrics().selects(), 2);

    engine.observe(&observation("openai", 1, StatusClass::Success), ms(0)).unwrap();
    assert_eq!(engine.metrics().observations(), 1);
}

#[test]
fn provider_quota_tracking() {
    let mut engine = setup_engine();

    assert_eq!(engine.provider_quota_remaining("openai", Dimension::Requests, ms(0)), Some(100));

    engine.observe(&observation("openai", 30, StatusClass::Success), ms(0)).unwrap();

    let remaining = engine.provider_quota_remaining("openai", Dimension::Requests, ms(0)).unwrap();
    assert_eq!(remaining, 70);
}

#[test]
fn cooldown_expires_and_provider_recovers() {
    let mut engine = setup_engine();
    let mut now = 0;

    // Trigger cooldown on openai
    for _ in 0..3 {
        now += 100;
        observe(&mut engine, &observation("openai", 1, StatusClass::RateLimited), ms(now));
    }

    assert_eq!(engine.provider_in_cooldown("openai", ms(now)), Some(true));

    // Advance past cooldown (30s)
    now += 31_000;

    assert_eq!(engine.provider_in_cooldown("openai", ms(now)), Some(false));

    // openai is selectable again
    let candidates = engine.select_candidates("chat", ms(now)).unwrap();
    assert!(candidates.iter().any(|c| c.provider == "openai" && !c.in_cooldown));
}

#[test]
fn cooldown_needs_the_full_streak_and_counts_once() {
    let mut engine = setup_engine();
    observe(&mut engine, &observation("openai", 1, StatusClass::ServerError), ms(100));
    observe(&mut engine, &observation("openai", 1, StatusClass::Timeout), ms(200));
    assert_eq!(engine.provider_in_cooldown("openai", ms(200)), Some(false));
    // A success ends the streak.
    observe(&mut engine, &observation("openai", 1, StatusClass::ClientError), ms(300));
    observe(&mut engine, &observation("openai", 1, StatusClass::Forbidden), ms(400));
    observe(&mut engine, &observation("openai", 1, StatusClass::Forbidden), ms(500));
    assert_eq!(engine.provider_in_cooldown("openai", ms(500)), Some(false));
    observe(&mut engine, &observation("openai", 1, StatusClass::Forbidden), ms(600));
    assert_eq!(engine.provider_in_cooldown("openai", ms(600)), Some(true));
    assert_eq!(engine.metrics().cooldowns_triggered(), 1);
    // A fourth failure inside the cooldown doubles it but starts no new one.
    observe(&mut engine, &observation("openai", 1, StatusClass::RateLimited), ms(700));
    assert_eq!(engine.metrics().cooldowns_triggered(), 1);
    assert_eq!(engine.provider_in_cooldown("openai", ms(60_699)), Some(true));
    assert_eq!(engine.provider_in_cooldown("openai", ms(60_700)), Some(false));
}

#[test]
fn cooldowns_are_capped_at_the_longest_cooldown() {
    let mut engine: EngineCore<()> = EngineCore::new(1, 45);
    engine.upsert_provider(provider("p", 10_000, 1), ms(0), ());
    for i in 0..10u64 {
        observe(&mut engine, &observation("p", 1, StatusClass::RateLimited), ms(i));
    }
    // 30s doubled nine times is far beyond 45s: the cooldown ends 45s after the last failure.
    assert_eq!(engine.provider_in_cooldown("p", ms(9 + 44_999)), Some(true));
    assert_eq!(engine.provider_in_cooldown("p", ms(9 + 45_000)), Some(false));
}

#[test]
fn observe_step_reports_what_health_needs() {
    let mut engine = setup_engine();
    let first = engine.observe(&observation("openai", 1, StatusClass::Success), ms(1_000)).unwrap();
    assert_eq!(first.elapsed_nanos, 1_000_000_000);
    assert_eq!(first.total_observations, 1);
    assert_eq!(first.failure_excess, None);
    assert_eq!(first.cooldown_seconds, 30);
    let second = engine.observe(&observation("openai", 1, StatusClass::RateLimited), ms(1_500)).unwrap();
    assert_eq!(second.elapsed_nanos, 500_000_000);
    assert_eq!(second.total_observations, 2);
    assert_eq!(second.failure_excess, None);
    let health = engine.provider_health_state("openai").unwrap();
    assert_eq!(health.consecutive_failures(), 1);
    assert_eq!(health.total_successes(), 1);
}

#[test]
fn usage_counts_per_dimension() {
    let mut engine: EngineCore<()> = EngineCore::new(3, 600);
    engine.upsert_provider(
        ProviderConfig {
            name: "openai".into(),
            quotas: vec![
                QuotaConfig { dimension: Dimension::Requests, limit: 100, window: Some(Window::Minute) },
                QuotaConfig { dimension: Dimension::Tokens, limit: 50_000, window: Some(Window::Minute) },
                QuotaConfig { dimension: Dimension::Concurrency, limit: 4, window: None },
            ],
            priority: 10,
            cooldown_seconds: 30,
        },
        ms(0),
        (),
    );
    let obs = Observation {
        provider: "openai".into(),
        capability: None,
        usage: Usage { requests: 2, tokens: Some(4_500), bytes: Some(9), cost_micro_usd: None },
        outcome: Outcome { status: StatusClass::Success, latency_ms: 200 },
    };
    assert!(engine.accepts_usage("openai", &obs.usage));
    engine.observe(&obs, ms(0)).unwrap();
    assert_eq!(engine.provider_quota_remaining("openai", Dimension::Requests, ms(0)), Some(98));
    assert_eq!(engine.provider_quota_remaining("openai", Dimension::Tokens, ms(0)), Some(45_500));
    assert_eq!(engine.provider_quota_remaining("openai", Dimension::Concurrency, ms(0)), Some(2));
    assert_eq!(engine.provider_quota_remaining("openai", Dimension::Bytes, ms(0)), None);
    let samples = engine.quota_samples("openai", ms(5_000)).unwrap();
    assert_eq!(samples.len(), 3);
    assert_eq!(samples[1].capacity, 50_000);
    assert_eq!(samples[1].burn.consumed, 4_500);
    assert_eq!(samples[1].burn.elapsed_nanos, 5_000_000_000);
    assert!(engine.quota_samples("missing", ms(0)).is_none());
    let huge = Usage { requests: u64::MAX, tokens: None, bytes: None, cost_micro_usd: None };
    assert!(!engine.accepts_usage("openai", &huge));
}

#[test]
fn upsert_provider_preserves_health() {
    let mut engine = setup_engine();
    observe(&mut engine, &observation("openai", 1, StatusClass::ServerError), ms(0));
    assert!(engine.set_provider_extra("openai", ()));
    engine.upsert_provider(provider("openai", 200, 10), ms(0), ());
    let health = engine.provider_health_state("openai").unwrap();
    assert_eq!(health.consecutive_failures(), 1);
    assert_eq!(health.total_observations(), 1);
    assert_eq!(engine.provider_quota_remaining("openai", Dimension::Requests, ms(0)), Some(200));
}

#[test]
fn select_lists_registered_providers_in_order() {
    let mut engine = setup_engine();
    engine.upsert_capability(CapabilityConfig {
        name: "chat".into(),
        providers: vec![
            CapabilityProvider { provider: "anthropic".into(), priority: 3 },
            CapabilityProvider { provider: "ghost".into(), priority: 12 },
            CapabilityProvider { provider: "openai".into(), priority: 7 },
        ],
    });
    let candidates = engine.select_candidates("chat", ms(0)).unwrap();
    assert_eq!(candidates.len(), 2);
    assert_eq!(candidates[0].provider, "anthropic");
    assert_eq!(candidates[0].priority, 3);
    assert_eq!(candidates[0].max_priority, 12);
    assert_eq!(candidates[1].provider, "openai");
    assert!(!candidates[1].in_cooldown);
}

#[test]
fn empty_capability_has_no_available_providers() {
    let mut engine = setup_engine();
    engine.upsert_capability(CapabilityConfig { name: "empty".into(), providers: vec![] });
    let result = engine.select_candidates("empty", ms(0));
    assert!(matches!(result, Err(Error::NoAvailableProviders(_))));
    assert_eq!(engine.metrics().no_provider_available(), 1);
    assert_eq!(engine.metrics().selects(), 1);
    engine.record_no_provider_available();
    assert_eq!(engine.metrics().no_provider_available(), 2);
}

#[test]
fn unknown_provider_lookups_give_none() {
    let mut engine = setup_engine();
    assert_eq!(engine.provider_in_cooldown("nobody", ms(0)), None);
    assert_eq!(engine.provider_quota_remaining("nobody", Dimension::Requests, ms(0)), None);
    assert!(engine.provider_extra("nobody").is_none());
    assert!(!engine.set_provider_extra("nobody", ()));
    assert!(engine.provider_health_state("nobody").is_none());
}

#[test]
fn provider_extra_survives_upsert() {
    let mut engine: EngineCore<u32> = EngineCore::new(3, 600);
    engine.upsert_provider(provider("a", 10, 1), ms(0), 7);
    assert_eq!(engine.provider_extra("a"), Some(&7));
    engine.set_provider_extra("a", 9);
    engine.upsert_provider(provider("a", 20, 1), ms(5), 1);
    assert_eq!(engine.provider_extra("a"), Some(&9));
    engine.upsert_provider(provider("b", 20, 1), ms(5), 1);
    assert_eq!(engine.provider_extra("b"), Some(&1));
}

#[test]
fn ranking_is_a_stable_descending_sort() {
    assert_eq!(rank_descending(&vec![]), Vec::<usize>::new());
    assert_eq!(rank_descending(&vec![5]), vec![0]);
    assert_eq!(rank_descending(&vec![3, 9, 3, 1, 9]), vec![1, 4, 0, 2, 3]);
    assert_eq!(rank_descending(&vec![7, 7, 7]), vec![0, 1, 2]);
    assert_eq!(rank_descending(&vec![1, 2, 3, 4]), vec![3, 2, 1, 0]);
}

#[test]
fn dynamic_provider_registration() {
    let mut engine: EngineCore<()> = EngineCore::new(3, 600);
    engine.upsert_provider(provider("openai", 100, 10), ms(0), ());
    engine.upsert_capability(CapabilityConfig {
        name: "chat".into(),
        providers: vec![CapabilityProvider { provider: "openai".into(), priority: 10 }],
    });

    let candidates = engine.select_candidates("chat", ms(0)).unwrap();
    assert_eq!(candidates.len(), 1);
    assert_eq!(candidates[0].provider, "openai");

    engine.upsert_provider(provider("anthropic", 80, 8), ms(0), ());
    engine.upsert_capability(CapabilityConfig {
        name: "chat".into(),
        providers: vec![
            CapabilityProvider { provider: "openai".into(), priority: 10 },
            CapabilityProvider { provider: "anthropic".into(), priority: 8 },
        ],
    });

    let candidates = engine.select_candidates("chat", ms(0)).unwrap();
    assert_eq!(candidates.len(), 2);
    assert_eq!(candidates[1].provider, "anthropic");
}

#[test]
fn providers_in_cooldown_are_never_available() {
    let mut engine = setup_engine();
    for i in 1..=3 {
        observe(&mut engine, &observation("openai", 1, StatusClass::RateLimited), ms(i * 100));
    }
    let candidates = engine.select_candidates("chat", ms(300)).unwrap();
    assert_eq!(candidates.len(), 2);
    let available = engine.available_candidates(&candidates, ms(300));
    assert_eq!(available.len(), 1);
    assert_eq!(available[0].provider, "anthropic");
    assert_eq!(available[0].priority, 8);
    assert_eq!(available[0].max_priority, 10);
    // Once the cooldown is over, both are available again, in order.
    let later = engine.available_candidates(&candidates, ms(30_300));
    assert_eq!(later.len(), 2);
    assert_eq!(later[0].provider, "openai");
    assert_eq!(later[1].provider, "anthropic");
}

#[test]
fn cooldown_before_the_streak_changes_nothing() {
    let mut engine = setup_engine();
    observe(&mut engine, &observation("openai", 1, StatusClass::RateLimited), ms(100));
    engine.apply_cooldown(&"openai".to_string(), ms(100), 30);
    assert_eq!(engine.provider_in_cooldown("openai", ms(100)), Some(false));
    assert_eq!(engine.metrics().cooldowns_triggered(), 0);
    observe(&mut engine, &observation("openai", 1, StatusClass::RateLimited), ms(200));
    observe(&mut engine, &observation("openai", 1, StatusClass::RateLimited), ms(300));
    assert_eq!(engine.provider_in_cooldown("openai", ms(300)), Some(true));
    assert_eq!(engine.metrics().cooldowns_triggered(), 1);
}

#[test]
fn counters_count_their_calls() {
    let mut engine = setup_engine();
    for _ in 0..4 {
        let _ = engine.select_candidates("chat", ms(0));
    }
    let _ = engine.select_candidates("missing", ms(0));
    engine.record_no_provider_available();
    let _ = engine.observe(&observation("nobody", 1, StatusClass::Success), ms(0));
    observe(&mut engine, &observation("anthropic", 1, StatusClass::Success), ms(0));
    let _ = engine.quota_samples("openai", ms(0));
    assert_eq!(engine.metrics().selects(), 5);
    assert_eq!(engine.metrics().observations(), 2);
    assert_eq!(engine.metrics().no_provider_available(), 1);
    assert_eq!(engine.metrics().cooldowns_triggered(), 0);
}

#[test]
fn longest_cooldown_may_exceed_the_nanosecond_range() {
    let mut engine: EngineCore<()> = EngineCore::new(1, u64::MAX);
    engine.upsert_provider(provider("p", 10, 1), ms(0), ());
    observe(&mut engine, &observation("p", 1, StatusClass::RateLimited), ms(1_000));
    assert_eq!(engine.provider_in_cooldown("p", ms(30_999)), Some(true));
    assert_eq!(engine.provider_in_cooldown("p", ms(31_000)), Some(false));
    assert_eq!(engine.provider_health_state("p").unwrap().current_cooldown_secs(), 30);
}
