use gradient_codec::adapter::{
    anthropic_info, estimate_cost, ollama_info, openai_info, CompletionRequest, ProviderId,
    ProviderInfo,
};
use gradient_codec::budget::BudgetError;
use gradient_codec::critique::FailureClass;
use gradient_codec::errors::GcError;
use gradient_codec::orchestrate::{
    benchmark_budget, forced_decision, gate, request_budget, Action, Orchestrator, Refusal, Tally,
};
use gradient_codec::budget::BudgetState;

fn usd(x: f64) -> u128 {
    (x * 1e12).round() as u128
}

fn pid(s: &str) -> ProviderId {
    ProviderId(s.to_string())
}

fn providers() -> Vec<ProviderInfo> {
    vec![openai_info(), anthropic_info(), ollama_info()]
}

fn request() -> CompletionRequest {
    CompletionRequest {
        prompt: "Hello".to_string(),
        max_tokens: 1000,
        temperature_bits: Some(0.7f64.to_bits()),
        system: None,
        tools: None,
        task_type: None,
    }
}

fn timeout() -> GcError {
    GcError::ProviderTimeout {
        provider: "openai".to_string(),
        timeout_ms: 5000,
    }
}

#[test]
fn answered_request_is_charged_its_actual_cost() {
    let mut o = Orchestrator::new(request_budget(usd(0.10)), providers(), request(), true);
    assert!(o.is_idle());
    let est = estimate_cost(&openai_info(), &request());
    match o.start(&pid("openai/gpt-4o-mini")) {
        Action::Dispatch { provider, estimate } => {
            assert_eq!(provider.0, "openai/gpt-4o-mini");
            assert_eq!(estimate, est);
        }
        other => panic!("expected Dispatch, got {other:?}"),
    }
    assert!(o.in_flight());
    // The hold (0.0006003 USD, rounded to 0.0006) is in the ledger.
    assert_eq!(o.budget().spent_usd(), usd(0.0006));
    match o.on_reply(usd(0.008)) {
        Action::Settle { provider, actual_cost } => {
            assert_eq!(provider.0, "openai/gpt-4o-mini");
            assert_eq!(actual_cost, usd(0.008));
        }
        other => panic!("expected Settle, got {other:?}"),
    }
    assert!(!o.in_flight());
    assert_eq!(o.budget().spent_usd(), usd(0.008));
    assert_eq!(o.budget().remaining_usd(), usd(0.092));
}

#[test]
fn failed_request_is_retried_once_on_the_critics_pick() {
    let mut o = Orchestrator::new(request_budget(usd(0.10)), providers(), request(), true);
    assert!(matches!(o.start(&pid("openai/gpt-4o-mini")), Action::Dispatch { .. }));
    let (class, retry, action) = o.on_failure(&timeout());
    assert_eq!(class, FailureClass::Timeout);
    // The fastest of the others is the Anthropic provider (1200 ms against 2000 ms).
    assert_eq!(retry.unwrap().0, "anthropic/sonnet");
    let retry_est = estimate_cost(&anthropic_info(), &request());
    match action {
        Action::Dispatch { provider, estimate } => {
            assert_eq!(provider.0, "anthropic/sonnet");
            assert_eq!(estimate, retry_est);
        }
        other => panic!("expected Dispatch, got {other:?}"),
    }
    // The first hold was released; only the retry's hold remains.
    assert_eq!(o.budget().spent_usd(), usd(0.015));
    let h = o.history();
    assert_eq!(h.recent_failure_count(&pid("openai/gpt-4o-mini")), 1);
    assert!(h.is_blocklisted(&pid("openai/gpt-4o-mini")));
    // The retry fails too: its hold is released and the orchestration gives up.
    let (class, retry, action) = o.on_failure(&GcError::RateLimited {
        provider: "anthropic".to_string(),
        retry_after_s: 9,
    });
    assert_eq!(class, FailureClass::RateLimit);
    assert!(retry.is_none());
    match action {
        Action::GiveUp { provider, class } => {
            assert_eq!(provider.0, "anthropic/sonnet");
            assert_eq!(class, FailureClass::RateLimit);
        }
        other => panic!("expected GiveUp, got {other:?}"),
    }
    assert_eq!(o.budget().spent_usd(), 0);
    // Only the first failure is recorded.
    assert_eq!(o.history().snapshot().total_events, 1);
}

#[test]
fn retry_is_gated_by_the_budget() {
    // 0.01 covers the first attempt (0.0006 × 1.2) but not the Anthropic retry (0.015 × 1.2).
    let mut o = Orchestrator::new(request_budget(usd(0.01)), providers(), request(), true);
    assert!(matches!(o.start(&pid("openai/gpt-4o-mini")), Action::Dispatch { .. }));
    let (_, retry, action) = o.on_failure(&timeout());
    assert_eq!(retry.unwrap().0, "anthropic/sonnet");
    match action {
        Action::Refuse { provider, refusal } => {
            assert_eq!(provider.0, "anthropic/sonnet");
            match refusal {
                Refusal::OverBudget { remaining, estimated } => {
                    assert_eq!(remaining, usd(0.01));
                    assert_eq!(estimated, estimate_cost(&anthropic_info(), &request()));
                }
                other => panic!("expected OverBudget, got {other:?}"),
            }
        }
        other => panic!("expected Refuse, got {other:?}"),
    }
    assert_eq!(o.budget().spent_usd(), 0);
    assert!(!o.in_flight());
}

#[test]
fn unknown_or_unaffordable_first_attempt_is_refused() {
    let mut o = Orchestrator::new(request_budget(usd(0.10)), providers(), request(), true);
    match o.start(&pid("nope")) {
        Action::Refuse { refusal: Refusal::NotRegistered { provider }, .. } => assert_eq!(provider.0, "nope"),
        other => panic!("expected NotRegistered, got {other:?}"),
    }
    let mut o = Orchestrator::new(request_budget(usd(0.001)), providers(), request(), true);
    match o.start(&pid("anthropic/sonnet")) {
        Action::Refuse { refusal: Refusal::OverBudget { remaining, .. }, .. } => {
            assert_eq!(remaining, usd(0.001))
        }
        other => panic!("expected OverBudget, got {other:?}"),
    }
    assert_eq!(o.budget().spent_usd(), 0);
}

#[test]
fn benchmark_mode_records_without_retry() {
    let mut o = Orchestrator::new(benchmark_budget(), providers(), request(), false);
    assert!(matches!(o.start(&pid("ollama/local")), Action::Dispatch { estimate: 0, .. }));
    let (class, retry, action) = o.on_failure(&GcError::ProviderError {
        provider: "ollama".to_string(),
        message: "down".to_string(),
        status_code: 503,
    });
    assert_eq!(class, FailureClass::ProviderError { status_code: 503 });
    assert!(retry.is_none());
    assert!(matches!(action, Action::GiveUp { .. }));
    assert!(o.history().is_blocklisted(&pid("ollama/local")));
    assert_eq!(o.history().recent_failure_count(&pid("ollama/local")), 1);
}

#[test]
fn gate_checks_then_holds() {
    let mut b = BudgetState::new(request_budget(usd(0.10)));
    assert!(gate(&mut b, usd(0.05)).is_ok());
    assert_eq!(b.spent_usd(), usd(0.05));
    // 0.05 left: 0.045 passes the cap but not 1.2 × 0.045.
    assert!(matches!(gate(&mut b, usd(0.045)), Err(Refusal::OverBudget { .. })));
    assert!(matches!(gate(&mut b, usd(0.2)), Err(Refusal::OverBudget { .. })));
    assert_eq!(b.spent_usd(), usd(0.05));
    let _ = BudgetError::PerRequestCapExceeded { cap: 0, estimated: 0 };
}

#[test]
fn budgets_for_runs_and_benchmarks() {
    let c = request_budget(usd(0.10));
    assert_eq!((c.total_usd, c.per_request_cap_usd, c.safety_margin), (usd(0.10), usd(0.10), 12_000));
    let c = benchmark_budget();
    assert_eq!((c.total_usd, c.per_request_cap_usd, c.safety_margin), (usd(1.0), usd(0.25), 12_000));
}

#[test]
fn forced_provider_falls_back_to_all_others() {
    let ps = providers();
    let d = forced_decision(&ps, &request(), &pid("anthropic/sonnet")).unwrap();
    assert_eq!(d.provider.0, "anthropic/sonnet");
    assert_eq!(d.estimated_cost, estimate_cost(&anthropic_info(), &request()));
    assert_eq!(d.rationale, "forced provider (user override)");
    let chain: Vec<&str> = d.fallback_chain.iter().map(|p| p.0.as_str()).collect();
    assert_eq!(chain, vec!["openai/gpt-4o-mini", "ollama/local"]);
    assert!(forced_decision(&ps, &request(), &pid("nope")).is_none());
}

#[test]
fn tally_sums_answered_tasks() {
    let mut t = Tally::new();
    t.add_success(usd(0.01), 10, 20, 300);
    t.add_success(usd(0.02), 1, 2, 100);
    assert_eq!(t.successful, 2);
    assert_eq!(t.total_cost, usd(0.03));
    assert_eq!(t.total_tokens, 33);
    assert_eq!(t.total_latency_ms, 400);
}
