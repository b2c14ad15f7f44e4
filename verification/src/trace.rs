//! Ephemeral orchestration trace (in-memory only).
//!
//! A trace records one orchestration step: the request's shape, the routing
//! decision, the result or failure, and the budget afterwards. It carries no
//! durable joinable identity (no trace id, no prompt hash) and is never written
//! or replayed.
use vstd::prelude::*;
use crate::adapter::{CompletionRequest, CompletionResponse, ProviderId, TokenUsage};
use crate::budget::BudgetSnapshot;
use crate::clock::now_micros;
use crate::critique::FailureClass;
use crate::money::PicoUsd;
use crate::routing::RoutingDecision;

verus! {

/// A complete in-memory trace of a single orchestration step.
#[derive(Debug)]
pub struct Trace {
    /// When the trace was opened, microseconds since the Unix epoch.
    pub timestamp: i64,
    pub request: TraceRequest,
    pub routing: RoutingDecision,
    pub result: Option<TraceResult>,
    pub failure: Option<TraceFailure>,
    pub budget_after: BudgetSnapshot,
}

/// Ephemeral request slice. No content hash — hashes are join keys.
#[derive(Debug)]
pub struct TraceRequest {
    pub max_tokens: u32,
    /// Sampling temperature as its IEEE-754 bit pattern.
    pub temperature_bits: Option<u64>,
    pub task_type: Option<String>,
}

/// A successful result.
#[derive(Debug)]
pub struct TraceResult {
    pub provider: ProviderId,
    pub text: String,
    pub usage: TokenUsage,
    /// Actual cost, in pico-dollars.
    pub actual_cost_usd: PicoUsd,
    pub latency_ms: u64,
    /// Quality score, fixed point over `QUALITY_SCALE`.
    pub quality_score: Option<u32>,
}

/// A failure, and whether (and where) a retry was attempted.
#[derive(Debug)]
pub struct TraceFailure {
    pub provider: ProviderId,
    pub class: FailureClass,
    pub error_message: String,
    pub retry_attempted: bool,
    pub retry_provider: Option<ProviderId>,
}

fn clone_opt_string(s: &Option<String>) -> (r: Option<String>)
    ensures
        r == *s,
{
    match s {
        Some(x) => Some(x.clone()),
        None => None,
    }
}

impl Trace {
    /// Open a trace for a request and its routing decision, stamped with the
    /// current time; no result, no failure, and a zero budget snapshot yet.
    pub fn new(request: &CompletionRequest, routing: RoutingDecision) -> (t: Self)
        ensures
            t.timestamp >= 0,
            t.request.max_tokens == request.max_tokens,
            t.request.temperature_bits == request.temperature_bits,
            t.request.task_type == request.task_type,
            t.routing == routing,
            t.result is None,
            t.failure is None,
            t.budget_after.remaining_usd == 0,
            t.budget_after.spent_usd == 0,
            t.budget_after.total_usd == 0,
    {
        Trace {
            timestamp: now_micros(),
            request: TraceRequest {
                max_tokens: request.max_tokens,
                temperature_bits: request.temperature_bits,
                task_type: clone_opt_string(&request.task_type),
            },
            routing,
            result: None,
            failure: None,
            budget_after: BudgetSnapshot { remaining_usd: 0, spent_usd: 0, total_usd: 0 },
        }
    }

    /// Record a successful result.
    pub fn set_result(
        &mut self,
        response: &CompletionResponse,
        provider: &ProviderId,
        cost_usd: PicoUsd,
        quality_score: Option<u32>,
    )
        ensures
            final(self).timestamp == old(self).timestamp,
            final(self).request == old(self).request,
            final(self).routing == old(self).routing,
            final(self).failure == old(self).failure,
            final(self).budget_after == old(self).budget_after,
            final(self).result == Some(
                TraceResult {
                    provider: *provider,
                    text: response.text,
                    usage: response.usage,
                    actual_cost_usd: cost_usd,
                    latency_ms: response.latency_ms,
                    quality_score,
                },
            ),
    {
        self.result = Some(
            TraceResult {
                provider: provider.clone(),
                text: response.text.clone(),
                usage: response.usage,
                actual_cost_usd: cost_usd,
                latency_ms: response.latency_ms,
                quality_score,
            },
        );
    }

    /// Record a failure.
    pub fn set_failure(
        &mut self,
        provider: &ProviderId,
        class: FailureClass,
        error_message: String,
        retry: bool,
        retry_provider: Option<ProviderId>,
    )
        ensures
            final(self).timestamp == old(self).timestamp,
            final(self).request == old(self).request,
            final(self).routing == old(self).routing,
            final(self).result == old(self).result,
            final(self).budget_after == old(self).budget_after,
            final(self).failure == Some(
                TraceFailure {
                    provider: *provider,
                    class,
                    error_message,
                    retry_attempted: retry,
                    retry_provider,
                },
            ),
    {
        self.failure = Some(
            TraceFailure {
                provider: provider.clone(),
                class,
                error_message,
                retry_attempted: retry,
                retry_provider,
            },
        );
    }

    /// Set budget snapshot after completion.
    pub fn set_budget(&mut self, snapshot: BudgetSnapshot)
        ensures
            final(self).timestamp == old(self).timestamp,
            final(self).request == old(self).request,
            final(self).routing == old(self).routing,
            final(self).result == old(self).result,
            final(self).failure == old(self).failure,
            final(self).budget_after == snapshot,
    {
        self.budget_after = snapshot;
    }
}

} // verus!
