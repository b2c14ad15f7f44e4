use gradient_codec::adapter::{ProviderId, ProviderInfo};
use gradient_codec::critique::{DefaultCritic, FailureClass, FailureCritic, FailureHistory, RetryStrategy};
use gradient_codec::errors::GcError;

fn price(p: f64) -> u32 {
    (p * 1e6).round() as u32
}

fn info(id: &str, name: &str, pin: f64, pout: f64, max: u32, lat: u64, stream: bool, tools: bool, local: bool) -> ProviderInfo {
    ProviderInfo {
        id: ProviderId(id.to_string()),
        display_name: name.to_string(),
        price_per_million_input: price(pin),
        price_per_million_output: price(pout),
        max_output_tokens: max,
        avg_latency_ms: lat,
        supports_streaming: stream,
        supports_tools: tools,
        is_local: local,
    }
}

#[test]
fn test_blocklist_on_timeout() {
    let mut history = FailureHistory::new();
    let provider = ProviderId("openai/gpt-4o-mini".to_string());

    history.record(provider.clone(), FailureClass::Timeout);

    assert!(history.is_blocklisted(&provider));
    assert_eq!(history.recent_failure_count(&provider), 1);
}

#[test]
fn test_no_blocklist_on_quality_degradation() {
    let mut history = FailureHistory::new();
    let provider = ProviderId("openai/gpt-4o-mini".to_string());

    history.record(provider.clone(), FailureClass::QualityDegradation);

    assert!(!history.is_blocklisted(&provider));
    assert_eq!(history.recent_failure_count(&provider), 1);
}

#[test]
fn test_critic_classifies_timeout() {
    let critic = DefaultCritic;
    let error = GcError::ProviderTimeout {
        provider: "openai".to_string(),
        timeout_ms: 5000,
    };
    let class = critic.classify(&error);
    assert_eq!(class, FailureClass::Timeout);
    assert_eq!(class.retry_strategy(), RetryStrategy::PreferFaster);
}

#[test]
fn test_critic_recommends_faster_on_timeout() {
    let critic = DefaultCritic;
    let failed = ProviderId("anthropic/sonnet".to_string());
    let available = vec![
        info("openai/gpt-4o-mini", "GPT-4o mini", 0.15, 0.60, 16384, 800, true, true, false),
        info("ollama/local", "Ollama", 0.0, 0.0, 4096, 2000, true, false, true),
    ];

    let recommendation = critic.recommend_retry(&FailureClass::Timeout, &failed, &available);
    assert_eq!(recommendation.unwrap().0, "openai/gpt-4o-mini");
}

#[test]
fn blocklist_durations_and_strategies() {
    assert_eq!(FailureClass::Timeout.blocklist_duration_s(), 30);
    assert_eq!(FailureClass::RateLimit.blocklist_duration_s(), 60);
    assert_eq!(FailureClass::ContentPolicy.blocklist_duration_s(), 0);
    assert_eq!(FailureClass::ProviderError { status_code: 503 }.blocklist_duration_s(), 120);
    assert_eq!(FailureClass::ProviderError { status_code: 404 }.blocklist_duration_s(), 0);
    assert_eq!(FailureClass::MalformedOutput.retry_strategy(), RetryStrategy::PreferMoreReliable);
    assert_eq!(FailureClass::QualityDegradation.retry_strategy(), RetryStrategy::PreferHigherQuality);
    assert_eq!(FailureClass::RateLimit.retry_strategy(), RetryStrategy::PreferAlternative);
}

#[test]
fn critic_classifies_every_error_kind() {
    let c = DefaultCritic;
    let p = || "p".to_string();
    assert_eq!(c.classify(&GcError::RateLimited { provider: p(), retry_after_s: 1 }), FailureClass::RateLimit);
    assert_eq!(c.classify(&GcError::ContentPolicy { provider: p(), reason: p() }), FailureClass::ContentPolicy);
    assert_eq!(c.classify(&GcError::MalformedOutput { provider: p(), detail: p() }), FailureClass::MalformedOutput);
    assert_eq!(
        c.classify(&GcError::ProviderError { provider: p(), message: p(), status_code: 502 }),
        FailureClass::ProviderError { status_code: 502 }
    );
    assert_eq!(c.classify(&GcError::Adapter(p())), FailureClass::ProviderError { status_code: 0 });
}

#[test]
fn retry_picks_per_strategy() {
    let c = DefaultCritic;
    let failed = ProviderId("x".to_string());
    let available = vec![
        info("x", "X", 1.0, 1.0, 1, 10, true, true, false),
        info("a", "A", 1.0, 2.0, 1, 500, false, true, false),
        info("b", "B", 1.0, 9.0, 1, 400, true, true, false),
        info("c", "C", 1.0, 9.0, 1, 400, true, false, false),
    ];
    // Alternative: the first other provider.
    assert_eq!(c.recommend_retry(&FailureClass::RateLimit, &failed, &available).unwrap().0, "a");
    // Faster: the first with the least latency.
    assert_eq!(c.recommend_retry(&FailureClass::Timeout, &failed, &available).unwrap().0, "b");
    // More reliable: the last with tools and streaming.
    assert_eq!(c.recommend_retry(&FailureClass::MalformedOutput, &failed, &available).unwrap().0, "b");
    // Higher quality: the last with the highest output price.
    assert_eq!(c.recommend_retry(&FailureClass::QualityDegradation, &failed, &available).unwrap().0, "c");
    // No other provider: no retry.
    assert!(c.recommend_retry(&FailureClass::Timeout, &failed, &available[..1]).is_none());
}

#[test]
fn history_inspection() {
    let mut h = FailureHistory::new();
    let a = ProviderId("a".to_string());
    let b = ProviderId("b".to_string());
    h.record(a.clone(), FailureClass::ContentPolicy);
    h.record(b.clone(), FailureClass::RateLimit);
    h.record(a.clone(), FailureClass::MalformedOutput);
    assert_eq!(h.recent_failure_count(&a), 2);
    assert_eq!(h.last_failure(&a), Some(FailureClass::MalformedOutput));
    assert_eq!(h.last_failure(&ProviderId("z".to_string())), None);
    assert_eq!(h.failures_for(&a).len(), 2);
    let s = h.snapshot();
    assert_eq!(s.total_events, 3);
    assert_eq!(s.providers_with_failures, 2);
    assert!(h.is_blocklisted(&b));
    assert!(!h.is_blocklisted(&a));
    h.prune_blocklist();
    assert!(h.is_blocklisted(&b));
}

#[test]
fn blocks_expire_at_their_deadline() {
    let mut h = FailureHistory::new();
    let a = ProviderId("a".to_string());
    h.record_at(a.clone(), FailureClass::Timeout, 1_000_000);
    assert!(h.is_blocklisted_at(&a, 1_000_000));
    assert!(h.is_blocklisted_at(&a, 30_999_999));
    assert!(!h.is_blocklisted_at(&a, 31_000_000));
    h.prune_blocklist_at(31_000_000);
    assert!(!h.is_blocklisted_at(&a, 2_000_000));
}

#[test]
fn history_keeps_the_newest_thousand() {
    let mut h = FailureHistory::new();
    let a = ProviderId("a".to_string());
    let b = ProviderId("b".to_string());
    h.record_at(b.clone(), FailureClass::QualityDegradation, 1);
    for i in 0..1000 {
        h.record_at(a.clone(), FailureClass::QualityDegradation, 2 + i);
    }
    assert_eq!(h.snapshot().total_events, 1000);
    assert_eq!(h.recent_failure_count(&b), 0);
    assert_eq!(h.recent_failure_count(&a), 1000);
}
