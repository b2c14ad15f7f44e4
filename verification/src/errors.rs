//! Router-plane error taxonomy.
//!
//! Emitted today (adapter / `classify_http_error`):
//! `Adapter`, `ProviderError`, `RateLimited`, `ContentPolicy`, `MalformedOutput`.
//! Critic-classified / reserved for the timeout path: `ProviderTimeout`.
//! Reserved (no emit site yet): `BudgetExhausted`, `NoProvider`, `Config`, `Generic`.
use vstd::prelude::*;
use crate::money::PicoUsd;

verus! {

/// Router-plane errors. Amounts are in pico-dollars.
#[derive(Debug)]
pub enum GcError {
    BudgetExhausted { remaining: PicoUsd, estimated: PicoUsd },
    NoProvider { reason: String },
    ProviderError { provider: String, message: String, status_code: u16 },
    ProviderTimeout { provider: String, timeout_ms: u64 },
    RateLimited { provider: String, retry_after_s: u64 },
    ContentPolicy { provider: String, reason: String },
    MalformedOutput { provider: String, detail: String },
    Adapter(String),
    Config(String),
    Generic(String),
}

/// Result with the router-plane error.
pub type GcResult<T> = Result<T, GcError>;

} // verus!
