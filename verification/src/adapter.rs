//! Provider-facing vocabulary: identifiers, static provider info, requests,
//! responses, token accounting, predictive cost estimation, and the mapping of
//! failed HTTP replies to the router's error taxonomy.
//!
//! Prices are integers: micro-dollars per million tokens, so the cost of one
//! token in pico-dollars is exactly the quoted price.
use vstd::prelude::*;
use crate::errors::GcError;
use crate::money::PicoUsd;
use crate::reply::Json;
use crate::text::{contains_chars, lowercase, to_lowercase, str_contains, take_chars};

verus! {

/// A provider identifier: e.g. "anthropic/sonnet", "openai/gpt-4o-mini".
#[derive(Debug)]
pub struct ProviderId(pub String);

impl View for ProviderId {
    type V = Seq<char>;

    open spec fn view(&self) -> Seq<char> {
        self.0@
    }
}

impl Clone for ProviderId {
    fn clone(&self) -> (r: Self)
        ensures
            r == *self,
    {
        ProviderId(self.0.clone())
    }
}

impl PartialEq for ProviderId {
    fn eq(&self, other: &Self) -> (r: bool) {
        self.0 == other.0
    }
}

impl vstd::std_specs::cmp::PartialEqSpecImpl for ProviderId {
    open spec fn obeys_eq_spec() -> bool {
        true
    }

    open spec fn eq_spec(&self, other: &Self) -> bool {
        self.0@ == other.0@
    }
}

impl Eq for ProviderId {

}

impl ProviderId {
    /// The identifier as text.
    pub fn as_str(&self) -> (r: &str)
        ensures
            r@ == self@,
    {
        self.0.as_str()
    }
}

/// Static info about a provider, used by routing policies for selection.
#[derive(Debug)]
pub struct ProviderInfo {
    pub id: ProviderId,
    pub display_name: String,
    /// Micro-dollars per million input tokens (USD per 1M × 1e6).
    pub price_per_million_input: u32,
    /// Micro-dollars per million output tokens (USD per 1M × 1e6).
    pub price_per_million_output: u32,
    /// Max output tokens per request.
    pub max_output_tokens: u32,
    /// Average latency in ms (rolling estimate).
    pub avg_latency_ms: u64,
    /// Supports streaming.
    pub supports_streaming: bool,
    /// Supports tool/function calling.
    pub supports_tools: bool,
    /// Is this a local/on-prem provider? (privacy routing)
    pub is_local: bool,
}

impl Clone for ProviderInfo {
    fn clone(&self) -> (r: Self)
        ensures
            r == *self,
    {
        ProviderInfo {
            id: self.id.clone(),
            display_name: self.display_name.clone(),
            price_per_million_input: self.price_per_million_input,
            price_per_million_output: self.price_per_million_output,
            max_output_tokens: self.max_output_tokens,
            avg_latency_ms: self.avg_latency_ms,
            supports_streaming: self.supports_streaming,
            supports_tools: self.supports_tools,
            is_local: self.is_local,
        }
    }
}

/// The hosted OpenAI entry of the catalog: GPT-4o mini at $0.15 / $0.60 per
/// million input / output tokens, 16384 output tokens, about 800 ms, with
/// streaming and tools.
pub fn openai_info() -> (p: ProviderInfo)
    ensures
        p.id@ == "openai/gpt-4o-mini"@,
        p.display_name@ == "OpenAI GPT-4o mini"@,
        p.price_per_million_input == 150_000,
        p.price_per_million_output == 600_000,
        p.max_output_tokens == 16384,
        p.avg_latency_ms == 800,
        p.supports_streaming,
        p.supports_tools,
        !p.is_local,
{
    ProviderInfo {
        id: ProviderId(String::from_str("openai/gpt-4o-mini")),
        display_name: String::from_str("OpenAI GPT-4o mini"),
        price_per_million_input: 150_000,
        price_per_million_output: 600_000,
        max_output_tokens: 16384,
        avg_latency_ms: 800,
        supports_streaming: true,
        supports_tools: true,
        is_local: false,
    }
}

/// The hosted Anthropic entry of the catalog: Sonnet at $3 / $15 per
/// million input / output tokens, 8192 output tokens, about 1200 ms, with
/// streaming and tools.
pub fn anthropic_info() -> (p: ProviderInfo)
    ensures
        p.id@ == "anthropic/sonnet"@,
        p.display_name@ == "Anthropic Sonnet"@,
        p.price_per_million_input == 3_000_000,
        p.price_per_million_output == 15_000_000,
        p.max_output_tokens == 8192,
        p.avg_latency_ms == 1200,
        p.supports_streaming,
        p.supports_tools,
        !p.is_local,
{
    ProviderInfo {
        id: ProviderId(String::from_str("anthropic/sonnet")),
        display_name: String::from_str("Anthropic Sonnet"),
        price_per_million_input: 3_000_000,
        price_per_million_output: 15_000_000,
        max_output_tokens: 8192,
        avg_latency_ms: 1200,
        supports_streaming: true,
        supports_tools: true,
        is_local: false,
    }
}

/// The local Ollama entry of the catalog: free, 4096 output tokens, about
/// 2000 ms, with streaming and without tools.
pub fn ollama_info() -> (p: ProviderInfo)
    ensures
        p.id@ == "ollama/local"@,
        p.display_name@ == "Ollama (local)"@,
        p.price_per_million_input == 0,
        p.price_per_million_output == 0,
        p.max_output_tokens == 4096,
        p.avg_latency_ms == 2000,
        p.supports_streaming,
        !p.supports_tools,
        p.is_local,
{
    ProviderInfo {
        id: ProviderId(String::from_str("ollama/local")),
        display_name: String::from_str("Ollama (local)"),
        price_per_million_input: 0,
        price_per_million_output: 0,
        max_output_tokens: 4096,
        avg_latency_ms: 2000,
        supports_streaming: true,
        supports_tools: false,
        is_local: true,
    }
}

/// Token usage from the counts a provider reported: a missing count is 0,
/// and a count is taken modulo 2^32.
pub fn usage_from_counts(input: Option<u64>, output: Option<u64>) -> (u: TokenUsage)
    ensures
        u.input_tokens == match input {
            Some(n) => n as u32,
            None => 0u32,
        },
        u.output_tokens == match output {
            Some(n) => n as u32,
            None => 0u32,
        },
{
    let input_tokens: u32 = match input {
        Some(n) => n as u32,
        None => 0,
    };
    let output_tokens: u32 = match output {
        Some(n) => n as u32,
        None => 0,
    };
    TokenUsage { input_tokens, output_tokens }
}

/// A JSON value (`serde_json::Value`), carried opaquely through the library.
#[verifier::external_type_specification]
#[verifier::external_body]
pub struct ExJsonValue(serde_json::Value);

/// A tool the model may call. Its JSON-schema parameters are carried as is.
#[derive(Debug)]
pub struct ToolSpec {
    pub name: String,
    pub description: String,
    pub parameters: serde_json::Value,
}

/// A provider-agnostic completion request.
#[derive(Debug)]
pub struct CompletionRequest {
    pub prompt: String,
    pub max_tokens: u32,
    /// The sampling temperature as its IEEE-754 bit pattern (`f64::to_bits`);
    /// the router carries it to the provider untouched.
    pub temperature_bits: Option<u64>,
    pub system: Option<String>,
    pub tools: Option<Vec<ToolSpec>>,
    pub task_type: Option<String>,
}

/// A completion response from a provider.
#[derive(Debug)]
pub struct CompletionResponse {
    pub text: String,
    pub usage: TokenUsage,
    pub latency_ms: u64,
    pub raw_provider_response: Option<Json>,
}

/// Tokens billed for one completion.
#[derive(Debug, Clone, Copy, PartialEq, Eq, Structural)]
pub struct TokenUsage {
    pub input_tokens: u32,
    pub output_tokens: u32,
}

impl Default for TokenUsage {
    fn default() -> (r: Self)
        ensures
            r.input_tokens == 0,
            r.output_tokens == 0,
    {
        TokenUsage { input_tokens: 0, output_tokens: 0 }
    }
}

/// Cost in pico-dollars of `input` and `output` tokens at a provider's prices.
pub open spec fn token_cost(p: ProviderInfo, input: int, output: int) -> int {
    input * p.price_per_million_input + output * p.price_per_million_output
}

/// `n` tokens at `price` pico-dollars each: at most 2^64 pico-dollars.
fn mul_price(n: u32, price: u32) -> (r: u128)
    ensures
        r == n as int * price as int,
        r <= 0xffff_ffff_ffff_ffff,
{
    assert(n as int * price as int <= 0xffff_ffff * 0xffff_ffff) by (nonlinear_arith)
        requires
            n <= 0xffff_ffff,
            price <= 0xffff_ffff,
    ;
    (n as u128) * (price as u128)
}

impl TokenUsage {
    /// Cost in pico-dollars at the given provider's prices.
    pub fn cost_usd(&self, provider: &ProviderInfo) -> (r: PicoUsd)
        ensures
            r == token_cost(*provider, self.input_tokens as int, self.output_tokens as int),
    {
        mul_price(self.input_tokens, provider.price_per_million_input) + mul_price(
            self.output_tokens,
            provider.price_per_million_output,
        )
    }
}

/// Characters the provider reads: the prompt plus the system message, if any.
pub open spec fn input_chars(r: CompletionRequest) -> int {
    r.prompt@.len() + match r.system {
        Some(s) => s@.len() as int,
        None => 0int,
    }
}

/// Input-token estimate: one token per four characters, rounded up
/// (saturating at `u32::MAX`).
pub open spec fn input_token_estimate(r: CompletionRequest) -> int {
    let t = (input_chars(r) + 3) / 4;
    if t > u32::MAX { u32::MAX as int } else { t }
}

/// Predictive cost of a request at a provider: estimated input tokens plus the
/// full `max_tokens` of output, in pico-dollars.
pub open spec fn request_cost(p: ProviderInfo, r: CompletionRequest) -> int {
    token_cost(p, input_token_estimate(r), r.max_tokens as int)
}

/// Estimate the input tokens of a request before dispatch:
/// a rough heuristic of four characters per token.
pub fn estimate_input_tokens(request: &CompletionRequest) -> (r: u32)
    ensures
        r == input_token_estimate(*request),
{
    let prompt_chars = request.prompt.unicode_len() as u128;
    let system_chars: u128 = match &request.system {
        Some(s) => s.unicode_len() as u128,
        None => 0,
    };
    let t = (prompt_chars + system_chars + 3) / 4;
    if t > u32::MAX as u128 {
        u32::MAX
    } else {
        t as u32
    }
}

/// Predictive cost estimation for a request at a provider, in pico-dollars.
pub fn estimate_cost(provider: &ProviderInfo, request: &CompletionRequest) -> (r: PicoUsd)
    ensures
        r == request_cost(*provider, *request),
        r <= 0x1_ffff_ffff_ffff_fffe,
{
    let input_tokens = estimate_input_tokens(request);
    mul_price(input_tokens, provider.price_per_million_input) + mul_price(
        request.max_tokens,
        provider.price_per_million_output,
    )
}

/// Whether a lowercased error body names a content-policy refusal.
pub open spec fn names_content_policy(lower: Seq<char>) -> bool {
    ||| contains_chars(lower, "content_policy"@)
    ||| contains_chars(lower, "content policy"@)
    ||| contains_chars(lower, "content_filter"@)
    ||| contains_chars(lower, "refusal"@)
}

/// Does an already lowercased error body name a content-policy refusal
/// ("content_policy", "content policy", "content_filter" or "refusal")?
pub fn is_content_policy_text(lower: &str) -> (r: bool)
    ensures
        r == names_content_policy(lower@),
{
    str_contains(lower, "content_policy") || str_contains(lower, "content policy")
        || str_contains(lower, "content_filter") || str_contains(lower, "refusal")
}

/// The error a failed HTTP reply maps to.
pub open spec fn http_error_class(
    provider: Seq<char>,
    status: u16,
    body: Seq<char>,
    retry_after: Option<u64>,
    err: GcError,
) -> bool {
    if status == 429 || status == 529 {
        err == GcError::RateLimited {
            provider: err->RateLimited_provider,
            retry_after_s: match retry_after {
                Some(s) => s,
                None => 60,
            },
        } && err->RateLimited_provider@ == provider
    } else if names_content_policy(lowercase(body)) {
        &&& err is ContentPolicy
        &&& err->ContentPolicy_provider@ == provider
        &&& err->ContentPolicy_reason@ == body.take(if body.len() < 240 { body.len() as int } else { 240 })
    } else {
        &&& err is ProviderError
        &&& err->ProviderError_provider@ == provider
        &&& err->ProviderError_message@ == body
        &&& err->ProviderError_status_code == status
    }
}

/// Map a failed HTTP response to an error the failure critic can classify:
/// 429/529 → `RateLimited` (Retry-After backoff, 60 s when absent);
/// a content-filter rejection → `ContentPolicy` (first 240 characters of the body);
/// everything else → `ProviderError` carrying the status code.
pub fn classify_http_error(provider: &str, status: u16, body: &str, retry_after: Option<u64>) -> (r:
    GcError)
    ensures
        http_error_class(provider@, status, body@, retry_after, r),
{
    if status == 429 || status == 529 {
        return GcError::RateLimited {
            provider: String::from_str(provider),
            retry_after_s: match retry_after {
                Some(s) => s,
                None => 60,
            },
        };
    }
    let lower = to_lowercase(body);
    if is_content_policy_text(lower.as_str()) {
        return GcError::ContentPolicy {
            provider: String::from_str(provider),
            reason: take_chars(body, 240),
        };
    }
    GcError::ProviderError {
        provider: String::from_str(provider),
        message: String::from_str(body),
        status_code: status,
    }
}

} // verus!
