use gradient_codec::adapter::{CompletionRequest, CompletionResponse, ProviderId, TokenUsage};
use gradient_codec::budget::BudgetSnapshot;
use gradient_codec::critique::FailureClass;
use gradient_codec::routing::RoutingDecision;
use gradient_codec::trace::{Trace, TraceRequest};

#[test]
fn trace_request_has_no_joinable_hash_field() {
    // An exhaustive literal and pattern: both stop compiling if TraceRequest
    // ever grows a field (a prompt hash among them).
    let r = TraceRequest {
        max_tokens: 100,
        temperature_bits: None,
        task_type: Some("chat".to_string()),
    };
    let TraceRequest {
        max_tokens,
        temperature_bits,
        task_type,
    } = r;
    assert_eq!(max_tokens, 100);
    assert_eq!(temperature_bits, None);
    assert_eq!(task_type.as_deref(), Some("chat"));
}

fn request() -> CompletionRequest {
    CompletionRequest {
        prompt: "Hello world".to_string(),
        max_tokens: 100,
        temperature_bits: Some(0.7f64.to_bits()),
        system: None,
        tools: None,
        task_type: Some("chat".to_string()),
    }
}

fn routing() -> RoutingDecision {
    RoutingDecision {
        provider: ProviderId("openai/gpt-4o-mini".to_string()),
        estimated_cost: 1_000_000_000,
        rationale: "cheapest".to_string(),
        fallback_chain: vec![ProviderId("ollama/local".to_string())],
    }
}

#[test]
fn trace_keeps_request_shape_and_routing() {
    let mut trace = Trace::new(&request(), routing());
    assert!(trace.timestamp > 0);
    assert_eq!(trace.request.max_tokens, 100);
    assert_eq!(trace.request.temperature_bits, Some(0.7f64.to_bits()));
    assert_eq!(trace.request.task_type.as_deref(), Some("chat"));
    assert_eq!(trace.routing.provider.0, "openai/gpt-4o-mini");
    assert!(trace.result.is_none() && trace.failure.is_none());
    trace.set_budget(BudgetSnapshot {
        remaining_usd: 9_990_000_000_000,
        spent_usd: 10_000_000_000,
        total_usd: 10_000_000_000_000,
    });
    assert_eq!(trace.budget_after.spent_usd, 10_000_000_000);
}

#[test]
fn trace_records_result_then_failure() {
    let mut trace = Trace::new(&request(), routing());
    let response = CompletionResponse {
        text: "hi".to_string(),
        usage: TokenUsage {
            input_tokens: 3,
            output_tokens: 5,
        },
        latency_ms: 42,
        raw_provider_response: None,
    };
    let p = ProviderId("openai/gpt-4o-mini".to_string());
    trace.set_result(&response, &p, 123, Some(5_000_000));
    let r = trace.result.as_ref().unwrap();
    assert_eq!(r.text, "hi");
    assert_eq!(r.usage.output_tokens, 5);
    assert_eq!(r.actual_cost_usd, 123);
    assert_eq!(r.latency_ms, 42);
    assert_eq!(r.quality_score, Some(5_000_000));
    trace.set_failure(
        &p,
        FailureClass::Timeout,
        "slow".to_string(),
        true,
        Some(ProviderId("ollama/local".to_string())),
    );
    let f = trace.failure.as_ref().unwrap();
    assert_eq!(f.class, FailureClass::Timeout);
    assert_eq!(f.error_message, "slow");
    assert!(f.retry_attempted);
    assert_eq!(f.retry_provider.as_ref().unwrap().0, "ollama/local");
}
