use gradient_codec::adapter::{
    anthropic_info, classify_http_error, estimate_cost, estimate_input_tokens,
    is_content_policy_text, ollama_info, openai_info, usage_from_counts, CompletionRequest, TokenUsage,
};
use gradient_codec::errors::GcError;

fn request(prompt: &str, system: Option<&str>, max_tokens: u32) -> CompletionRequest {
    CompletionRequest {
        prompt: prompt.to_string(),
        max_tokens,
        temperature_bits: None,
        system: system.map(|s| s.to_string()),
        tools: None,
        task_type: None,
    }
}

#[test]
fn maps_429_to_ratelimited_with_backoff() {
    match classify_http_error("llm", 429, "too many requests", Some(120)) {
        GcError::RateLimited {
            provider,
            retry_after_s,
        } => {
            assert_eq!(provider.as_str(), "llm");
            assert_eq!(retry_after_s, 120u64);
        }
        other => panic!("expected RateLimited, got {other:?}"),
    }
}

#[test]
fn maps_529_to_ratelimited_default_backoff() {
    match classify_http_error("llm", 529, "overloaded", None) {
        GcError::RateLimited { retry_after_s, .. } => {
            assert_eq!(retry_after_s, 60u64)
        }
        _ => panic!("expected RateLimited for 529"),
    }
}

#[test]
fn maps_content_filter_to_content_policy() {
    let body = "code content_policy violation";
    match classify_http_error("llm", 400, body, None) {
        GcError::ContentPolicy { .. } => {}
        _ => panic!("expected ContentPolicy"),
    }
}

#[test]
fn maps_nonpolicy_4xx_to_provider_error() {
    match classify_http_error("llm", 400, "plain 400 error", None) {
        GcError::ProviderError { status_code, .. } => {
            assert_eq!(status_code, 400u16)
        }
        _ => panic!("expected ProviderError for non-policy 4xx"),
    }
}

#[test]
fn policy_match_ignores_case_and_truncates_reason() {
    // The body is lowercased before matching.
    let body = format!("CONTENT_FILTER {}", "x".repeat(300));
    match classify_http_error("openai", 400, &body, None) {
        GcError::ContentPolicy { provider, reason } => {
            assert_eq!(provider, "openai");
            assert_eq!(reason.chars().count(), 240);
            assert!(reason.starts_with("CONTENT_FILTER "));
        }
        other => panic!("expected ContentPolicy, got {other:?}"),
    }
    match classify_http_error("a", 403, "Model REFUSAL", None) {
        GcError::ContentPolicy { reason, .. } => assert_eq!(reason, "Model REFUSAL"),
        other => panic!("expected ContentPolicy, got {other:?}"),
    }
    match classify_http_error("a", 500, "boom", Some(5)) {
        GcError::ProviderError { provider, message, status_code } => {
            assert_eq!((provider.as_str(), message.as_str(), status_code), ("a", "boom", 500));
        }
        other => panic!("expected ProviderError, got {other:?}"),
    }
}

#[test]
fn input_tokens_are_chars_over_four_rounded_up() {
    assert_eq!(estimate_input_tokens(&request("", None, 0)), 0);
    assert_eq!(estimate_input_tokens(&request("abcd", None, 0)), 1);
    assert_eq!(estimate_input_tokens(&request("abcde", None, 0)), 2);
    // Characters, not bytes; the system message counts too.
    assert_eq!(estimate_input_tokens(&request("ééé", Some("ab"), 0)), 2);
}

#[test]
fn cost_estimate_and_actual_cost() {
    let openai = openai_info();
    // 3 input tokens at $0.15/M plus 100 output tokens at $0.60/M, in pico-dollars.
    assert_eq!(estimate_cost(&openai, &request("Hello world", None, 100)), 450_000 + 60_000_000);
    let usage = TokenUsage {
        input_tokens: 1_000_000,
        output_tokens: 2_000_000,
    };
    // $0.15 + $1.20
    assert_eq!(usage.cost_usd(&openai), 1_350_000_000_000);
    assert_eq!(TokenUsage::default().cost_usd(&anthropic_info()), 0);
}

#[test]
fn provider_catalog() {
    let o = openai_info();
    assert_eq!(o.id.0, "openai/gpt-4o-mini");
    assert_eq!((o.price_per_million_input, o.price_per_million_output), (150_000, 600_000));
    let a = anthropic_info();
    assert_eq!(a.id.as_str(), "anthropic/sonnet");
    assert_eq!(a.max_output_tokens, 8192);
    assert_eq!(a.price_per_million_output, 15_000_000);
    let l = ollama_info();
    assert_eq!(l.display_name, "Ollama (local)");
    assert!(l.is_local && !l.supports_tools);
    assert_eq!(l.avg_latency_ms, 2000);
}

#[test]
fn reported_counts_become_usage() {
    let u = usage_from_counts(Some(12), None);
    assert_eq!((u.input_tokens, u.output_tokens), (12, 0));
    let u = usage_from_counts(Some((1u64 << 32) + 7), Some(3));
    assert_eq!((u.input_tokens, u.output_tokens), (7, 3));
}

#[test]
fn content_policy_text_matches_each_marker_in_lowercase() {
    assert!(is_content_policy_text("error: content_policy_violation"));
    assert!(is_content_policy_text("blocked by content policy"));
    assert!(is_content_policy_text("content_filter triggered"));
    assert!(is_content_policy_text("model refusal"));
    assert!(!is_content_policy_text("internal server error"));
    assert!(!is_content_policy_text("content-policy"));
    // The text is taken as already lowercased.
    assert!(!is_content_policy_text("CONTENT_POLICY"));
    assert!(!is_content_policy_text(""));
}
