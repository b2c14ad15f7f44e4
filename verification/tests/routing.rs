use gradient_codec::adapter::{CompletionRequest, ProviderId, ProviderInfo};
use gradient_codec::budget::{BudgetConfig, BudgetState};
use gradient_codec::critique::{FailureClass, FailureHistory};
use gradient_codec::routing::{
    parse_policy_list, BudgetAware, CheapestFirst, PolicyRegistry, QualityFirst, RegisteredPolicy,
    RoutingPolicy,
};

fn usd(x: f64) -> u128 {
    (x * 1e12).round() as u128
}

fn price(p: f64) -> u32 {
    (p * 1e6).round() as u32
}

/// A quality score as fixed point over 10_000_000.
fn quality(q: f64) -> u32 {
    (q * 1e7).round() as u32
}

/// A weight as fixed point over 10_000.
fn weight(w: f64) -> u64 {
    (w * 1e4).round() as u64
}

fn margin(m: f64) -> u64 {
    (m * 1e4).round() as u64
}

fn pid(s: &str) -> ProviderId {
    ProviderId(s.to_string())
}

#[allow(clippy::too_many_arguments)]
fn info(id: &str, name: &str, pin: f64, pout: f64, max: u32, lat: u64, stream: bool, tools: bool, local: bool) -> ProviderInfo {
    ProviderInfo {
        id: pid(id),
        display_name: name.to_string(),
        price_per_million_input: price(pin),
        price_per_million_output: price(pout),
        max_output_tokens: max,
        avg_latency_ms: lat,
        supports_streaming: stream,
        supports_tools: tools,
        is_local: local,
    }
}

fn mock_providers() -> Vec<ProviderInfo> {
    vec![
        info("openai/gpt-4o-mini", "GPT-4o mini", 0.15, 0.60, 16384, 800, true, true, false),
        info("anthropic/sonnet", "Sonnet", 3.00, 15.00, 8192, 1200, true, true, false),
        info("ollama/local", "Ollama local", 0.0, 0.0, 4096, 2000, true, false, true),
    ]
}

fn mock_request(prompt: &str, max_tokens: u32) -> CompletionRequest {
    CompletionRequest {
        prompt: prompt.to_string(),
        max_tokens,
        temperature_bits: None,
        system: None,
        tools: None,
        task_type: None,
    }
}

#[test]
fn test_cheapest_first_prefers_ollama() {
    let policy = CheapestFirst;
    let budget = BudgetState::new(BudgetConfig::default());
    let history = FailureHistory::new();
    let providers = mock_providers();
    let request = mock_request("Hello world", 100);

    let decision = policy
        .select(&request, &budget, &history, &providers)
        .unwrap();
    assert_eq!(decision.provider.0, "ollama/local");
}

#[test]
fn quality_first_respects_injected_scores() {
    let policy = QualityFirst::new()
        .with_score(pid("ollama/local"), quality(0.99))
        .with_score(pid("anthropic/sonnet"), quality(0.1))
        .with_score(pid("openai/gpt-4o-mini"), quality(0.1));

    let budget = BudgetState::new(BudgetConfig::default());
    let history = FailureHistory::new();
    let providers = mock_providers();
    let request = mock_request("Hello", 100);

    let decision = policy
        .select(&request, &budget, &history, &providers)
        .unwrap();
    assert_eq!(
        decision.provider.0, "ollama/local",
        "QualityFirst must honor injected scores over price proxy"
    );
}

#[test]
fn test_budget_aware_balances() {
    let policy = BudgetAware::new()
        .with_score(pid("openai/gpt-4o-mini"), quality(0.7))
        .with_score(pid("anthropic/sonnet"), quality(0.95))
        .with_score(pid("ollama/local"), quality(0.4))
        .with_quality_weight(weight(0.7));

    let budget = BudgetState::new(BudgetConfig::default());
    let history = FailureHistory::new();
    let providers = mock_providers();
    let mut request = mock_request("Write a summary", 500);
    request.task_type = Some("summarization".to_string());

    let decision = policy
        .select(&request, &budget, &history, &providers)
        .unwrap();
    assert!(budget.can_afford(decision.estimated_cost));
}

#[test]
fn test_failure_history_reroutes() {
    let policy = BudgetAware::new()
        .with_score(pid("openai/gpt-4o-mini"), quality(0.7))
        .with_score(pid("anthropic/sonnet"), quality(0.95))
        .with_score(pid("ollama/local"), quality(0.4));

    let budget = BudgetState::new(BudgetConfig::default());
    let mut history = FailureHistory::new();
    for _ in 0..3 {
        history.record(pid("anthropic/sonnet"), FailureClass::Timeout);
    }

    let providers = mock_providers();
    let request = mock_request("Hello", 100);

    let decision = policy
        .select(&request, &budget, &history, &providers)
        .unwrap();
    assert_ne!(decision.provider.0, "anthropic/sonnet");
}

#[test]
fn higher_quality_wins_when_cost_equal() {
    let providers = vec![
        info("provider-a", "Provider A", 1.0, 1.0, 4096, 1000, true, true, false),
        info("provider-b", "Provider B", 1.0, 1.0, 4096, 1000, true, true, false),
    ];
    let policy = BudgetAware::new()
        .with_score(pid("provider-a"), quality(0.3))
        .with_score(pid("provider-b"), quality(0.9))
        .with_quality_weight(weight(0.5));

    let budget = BudgetState::new(BudgetConfig::default());
    let history = FailureHistory::new();
    let request = mock_request("Hello", 100);

    let decision = policy
        .select(&request, &budget, &history, &providers)
        .unwrap();
    assert_eq!(
        decision.provider.0, "provider-b",
        "Higher quality provider must be selected when costs are equal"
    );
}

#[test]
fn lower_cost_wins_when_quality_equal() {
    let providers = vec![
        info("cheap", "Cheap", 0.10, 0.10, 4096, 1000, true, true, false),
        info("expensive", "Expensive", 10.0, 10.0, 4096, 1000, true, true, false),
    ];
    let policy = BudgetAware::new()
        .with_score(pid("cheap"), quality(0.7))
        .with_score(pid("expensive"), quality(0.7))
        .with_quality_weight(weight(0.5));

    let budget = BudgetState::new(BudgetConfig::default());
    let history = FailureHistory::new();
    let request = mock_request("Hello", 100);

    let decision = policy
        .select(&request, &budget, &history, &providers)
        .unwrap();
    assert_eq!(
        decision.provider.0, "cheap",
        "Cheaper provider must be selected when quality scores are equal"
    );
}

#[test]
fn failure_penalty_reroutes_from_identical_provider() {
    let providers = vec![
        info("clean", "Clean", 1.0, 1.0, 4096, 1000, true, true, false),
        info("failed", "Failed", 1.0, 1.0, 4096, 1000, true, true, false),
    ];
    let policy = BudgetAware::new()
        .with_score(pid("clean"), quality(0.7))
        .with_score(pid("failed"), quality(0.7))
        .with_quality_weight(weight(0.5));

    let budget = BudgetState::new(BudgetConfig::default());
    let mut history = FailureHistory::new();
    for _ in 0..2 {
        history.record(pid("failed"), FailureClass::Timeout);
    }

    let request = mock_request("Hello", 100);
    let decision = policy
        .select(&request, &budget, &history, &providers)
        .unwrap();
    assert_eq!(
        decision.provider.0, "clean",
        "Clean provider must be selected over identical provider with failures"
    );
}

#[test]
fn zero_cost_provider_does_not_crash() {
    let providers = vec![info("ollama/local", "Ollama", 0.0, 0.0, 4096, 2000, true, false, true)];
    let policy = BudgetAware::new()
        .with_score(pid("ollama/local"), quality(0.5))
        .with_quality_weight(weight(0.6));

    let budget = BudgetState::new(BudgetConfig::default());
    let history = FailureHistory::new();
    let request = mock_request("Hello", 100);

    let decision = policy.select(&request, &budget, &history, &providers);
    assert!(
        decision.is_some(),
        "Must return a decision for zero-cost provider"
    );
    let d = decision.unwrap();
    let cost = d.estimated_cost as f64 / 1e12;
    assert!(cost.is_finite(), "estimated_cost must not be NaN/Inf");
    assert!(cost >= 0.0, "estimated_cost must be non-negative");
    assert_eq!(
        d.rationale,
        "budget-aware: score=0.300 (quality=0.50×0.6, cost=0.000000, failures=0)"
    );
}

#[test]
fn zero_cost_provider_has_max_cost_advantage() {
    let providers = mock_providers();
    let policy = BudgetAware::new()
        .with_score(pid("openai/gpt-4o-mini"), quality(0.5))
        .with_score(pid("anthropic/sonnet"), quality(0.5))
        .with_score(pid("ollama/local"), quality(0.5))
        .with_quality_weight(weight(0.1));

    let budget = BudgetState::new(BudgetConfig::default());
    let history = FailureHistory::new();
    let request = mock_request("Hello", 100);

    let decision = policy
        .select(&request, &budget, &history, &providers)
        .unwrap();
    assert_eq!(
        decision.provider.0, "ollama/local",
        "Ollama (free) must win when cost_weight is high and all quality scores are equal"
    );
}

#[test]
fn blocklisted_provider_never_selected() {
    let providers = vec![
        info("best", "Best", 0.01, 0.01, 4096, 500, true, true, false),
        info("worst", "Worst", 10.0, 10.0, 4096, 3000, false, false, false),
    ];
    let policy = BudgetAware::new()
        .with_score(pid("best"), quality(0.99))
        .with_score(pid("worst"), quality(0.01))
        .with_quality_weight(weight(0.9));

    let budget = BudgetState::new(BudgetConfig::default());
    let mut history = FailureHistory::new();
    history.record(pid("best"), FailureClass::Timeout);

    let request = mock_request("Hello", 100);
    let decision = policy
        .select(&request, &budget, &history, &providers)
        .unwrap();
    assert_eq!(
        decision.provider.0, "worst",
        "Blocklisted provider must never be selected, even if it's the best"
    );
}

#[test]
fn returns_none_when_no_provider_affordable() {
    let providers = vec![info("expensive", "Expensive", 1000.0, 1000.0, 4096, 1000, true, true, false)];
    let config = BudgetConfig {
        total_usd: usd(0.001),
        per_request_cap_usd: usd(0.0001),
        safety_margin: margin(1.2),
    };
    let budget = BudgetState::new(config);
    let policy = BudgetAware::new().with_score(pid("expensive"), quality(0.9));
    let history = FailureHistory::new();
    let request = mock_request("Hello world this is a long prompt", 1000);

    let decision = policy.select(&request, &budget, &history, &providers);
    assert!(
        decision.is_none(),
        "Must return None when no provider is affordable"
    );
}

#[test]
fn cheapest_first_ranks_everyone_and_explains() {
    let budget = BudgetState::new(BudgetConfig::default());
    let history = FailureHistory::new();
    let request = mock_request("Hello world", 100);
    let d = CheapestFirst.select(&request, &budget, &history, &mock_providers()).unwrap();
    assert_eq!(d.estimated_cost, 0);
    assert_eq!(d.rationale, "cheapest available provider at $0.000000/request");
    let chain: Vec<&str> = d.fallback_chain.iter().map(|p| p.0.as_str()).collect();
    assert_eq!(chain, vec!["openai/gpt-4o-mini", "anthropic/sonnet"]);
}

#[test]
fn quality_first_uses_price_proxy_without_scores() {
    let budget = BudgetState::new(BudgetConfig::default());
    let history = FailureHistory::new();
    let request = mock_request("Hello", 100);
    let d = QualityFirst::new().select(&request, &budget, &history, &mock_providers()).unwrap();
    // The Anthropic $15 output price stands for a quality of 1.5.
    assert_eq!(d.provider.0, "anthropic/sonnet");
    assert_eq!(d.rationale, "highest quality score: 1.50");
    // 2 input tokens at $3/M plus 100 output tokens at $15/M.
    assert_eq!(d.estimated_cost, usd(0.000006 + 0.0015));
}

#[test]
fn quality_weight_is_clamped_to_one() {
    let providers = vec![
        info("cheap", "Cheap", 0.10, 0.10, 4096, 1000, true, true, false),
        info("good", "Good", 10.0, 10.0, 4096, 1000, true, true, false),
    ];
    let policy = BudgetAware::new()
        .with_score(pid("cheap"), quality(0.2))
        .with_score(pid("good"), quality(0.9))
        .with_quality_weight(weight(7.0));
    let budget = BudgetState::new(BudgetConfig::default());
    let d = policy
        .select(&mock_request("Hello", 100), &budget, &FailureHistory::new(), &providers)
        .unwrap();
    // With all weight on quality, cost does not count.
    assert_eq!(d.provider.0, "good");
    assert!(d.rationale.contains("quality=0.90×1.0"));
}

#[test]
fn registry_lists_and_finds_defaults() {
    let registry = PolicyRegistry::with_defaults();
    let names: Vec<&str> = registry.list().iter().map(|(n, _)| *n).collect();
    assert_eq!(names, vec!["cheapest-first", "quality-first", "budget-aware"]);
    assert_eq!(registry.get("budget-aware").unwrap().name(), "budget-aware");
    assert!(registry.get("nope").is_none());
    assert!(PolicyRegistry::new().list().is_empty());
}

#[test]
fn registry_keeps_custom_policies_after_defaults() {
    let mut registry = PolicyRegistry::with_defaults();
    let mut weighted = BudgetAware::new().with_quality_weight(10_000);
    weighted = weighted.with_score(ProviderId("a".to_string()), 1);
    registry.register(Box::new(weighted));
    let names: Vec<&str> = registry.list().iter().map(|(n, _)| *n).collect();
    assert_eq!(names, vec!["cheapest-first", "quality-first", "budget-aware", "budget-aware"]);
    // The first registration under a name wins.
    let found = registry.get("budget-aware").unwrap();
    assert!(matches!(found, RegisteredPolicy::Aware(_)));
    assert_eq!(
        registry.get("quality-first").unwrap().description(),
        "Selects the provider with the highest expected quality score."
    );
}

#[test]
fn policy_list_splits_and_trims() {
    assert_eq!(
        parse_policy_list(" cheapest-first, budget-aware ,quality-first"),
        vec!["cheapest-first", "budget-aware", "quality-first"]
    );
    assert_eq!(parse_policy_list("a,,b"), vec!["a", "", "b"]);
    assert_eq!(parse_policy_list(""), vec![""]);
    assert_eq!(parse_policy_list("x,"), vec!["x", ""]);
    assert_eq!(parse_policy_list("\t\u{3000}one\u{a0}"), vec!["one"]);
}
