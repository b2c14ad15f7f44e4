//! Fixed-point budget: a ceiling, a per-request cap and a safety margin.
//!
//! The ledger counts hundredths of a cent (1e-4 USD) in a `u64`, so holds and
//! charges never drift. Callers pass amounts in pico-dollars; every amount is
//! rounded to the ledger unit exactly once, where it enters the ledger.
//!
//! Protocol: `reserve` a hold before dispatching a request, then `reconcile`
//! the hold against the actual charge (`actual = 0` releases the hold).
use vstd::prelude::*;
use vstd::arithmetic::div_mod::{lemma_div_is_ordered, lemma_div_multiples_vanish_quotient};
use crate::money::{
    PicoUsd, PICO_PER_USD, PICO_PER_RAW, MARGIN_SCALE, round_div, clamp_u64, sat_sub,
    usd_to_raw, raw_to_usd, round_div_u128, pico_to_raw, raw_to_pico, margin_of, margin_times,
};

verus! {

/// Budget settings.
#[derive(Debug, Clone, Copy)]
pub struct BudgetConfig {
    /// Total budget, in pico-dollars.
    pub total_usd: PicoUsd,
    /// Per-request cap, in pico-dollars: no single request may be estimated above it.
    pub per_request_cap_usd: PicoUsd,
    /// Safety margin, fixed point over [`MARGIN_SCALE`] (12_000 is 1.2):
    /// dispatch is refused when the remaining budget is below margin × estimate.
    pub safety_margin: u64,
}

impl Default for BudgetConfig {
    /// $10 total, $1 per request, margin 1.2.
    fn default() -> (c: Self)
        ensures
            c.total_usd == 10 * PICO_PER_USD,
            c.per_request_cap_usd == PICO_PER_USD,
            c.safety_margin == 12_000,
    {
        BudgetConfig {
            total_usd: 10 * PICO_PER_USD,
            per_request_cap_usd: PICO_PER_USD,
            safety_margin: 12_000,
        }
    }
}

/// The abstract state of a budget: ledger amounts in ledger units, cap and
/// estimates in pico-dollars, margin in fixed point.
pub struct BudgetLedger {
    pub spent: int,
    pub total: int,
    pub cap: int,
    pub margin: int,
}

/// Ledger units still available (never negative).
pub open spec fn remaining_raw(l: BudgetLedger) -> int {
    sat_sub(l.total, l.spent)
}

/// margin × estimate, in ledger units, rounded and saturating: the least
/// remaining balance that lets a hold of `est` pico-dollars through.
pub open spec fn threshold_raw(margin: int, est: int) -> int {
    clamp_u64(round_div(margin * est, PICO_PER_RAW as int * MARGIN_SCALE as int))
}

/// Predictive check: the estimate is within the per-request cap and the remaining
/// budget exceeds margin × estimate (a budget left at exactly margin × estimate
/// counts as exhausted for that estimate).
pub open spec fn affordable(l: BudgetLedger, est: int) -> bool {
    &&& est <= l.cap
    &&& raw_to_usd(remaining_raw(l)) * MARGIN_SCALE as int > l.margin * est
}

/// Why `reserve(est)` refuses, if it does.
pub open spec fn reserve_refusal(l: BudgetLedger, est: int) -> Option<BudgetError> {
    if est > l.cap {
        Some(BudgetError::PerRequestCapExceeded { cap: l.cap as u128, estimated: est as u128 })
    } else if remaining_raw(l) < threshold_raw(l.margin, est) {
        Some(
            BudgetError::Insufficient {
                remaining: raw_to_usd(remaining_raw(l)) as u128,
                estimated: est as u128,
                threshold: margin_of(l.margin, est) as u128,
            },
        )
    } else {
        None
    }
}

/// The ledger after a granted hold of `est` pico-dollars.
pub open spec fn reserved(l: BudgetLedger, est: int) -> BudgetLedger {
    BudgetLedger { spent: clamp_u64(l.spent + usd_to_raw(est)), ..l }
}

/// The ledger after a hold of `est` is replaced by a charge of `actual`.
pub open spec fn reconciled(l: BudgetLedger, est: int, actual: int) -> BudgetLedger {
    BudgetLedger { spent: clamp_u64(sat_sub(l.spent, usd_to_raw(est)) + usd_to_raw(actual)), ..l }
}

/// A budget ledger with its settings.
#[derive(Debug)]
pub struct BudgetState {
    spent_centi_milli: u64,
    total_centi_milli: u64,
    config: BudgetConfig,
}

impl View for BudgetState {
    type V = BudgetLedger;

    closed spec fn view(&self) -> BudgetLedger {
        BudgetLedger {
            spent: self.spent_centi_milli as int,
            total: self.total_centi_milli as int,
            cap: self.config.per_request_cap_usd as int,
            margin: self.config.safety_margin as int,
        }
    }
}

impl BudgetState {
    /// The settings the budget was made with.
    pub closed spec fn spec_config(&self) -> BudgetConfig {
        self.config
    }

    /// Every ledger amount fits the ledger's `u64`, the settings fit theirs.
    pub proof fn lemma_bounds(&self)
        ensures
            0 <= self@.spent <= u64::MAX,
            0 <= self@.total <= u64::MAX,
            0 <= self@.cap <= u128::MAX,
            0 <= self@.margin <= u64::MAX,
            self@.cap == self.spec_config().per_request_cap_usd,
            self@.margin == self.spec_config().safety_margin,
    {
    }

    /// A fresh budget: nothing spent, the total converted to ledger units.
    pub fn new(config: BudgetConfig) -> (b: Self)
        ensures
            b@.spent == 0,
            b@.total == usd_to_raw(config.total_usd as int),
            b@.cap == config.per_request_cap_usd,
            b@.margin == config.safety_margin,
            b.spec_config() == config,
    {
        let total_raw = pico_to_raw(config.total_usd);
        BudgetState { spent_centi_milli: 0, total_centi_milli: total_raw, config }
    }

    fn remaining_raw(&self) -> (r: u64)
        ensures
            r == remaining_raw(self@),
    {
        self.total_centi_milli.saturating_sub(self.spent_centi_milli)
    }

    /// What is left of the budget, in pico-dollars.
    pub fn remaining_usd(&self) -> (r: PicoUsd)
        ensures
            r == raw_to_usd(remaining_raw(self@)),
    {
        raw_to_pico(self.remaining_raw())
    }

    /// What has been spent or held, in pico-dollars.
    pub fn spent_usd(&self) -> (r: PicoUsd)
        ensures
            r == raw_to_usd(self@.spent),
    {
        raw_to_pico(self.spent_centi_milli)
    }

    /// Predictive check: can we afford this estimated cost?
    pub fn can_afford(&self, estimated_usd: PicoUsd) -> (r: bool)
        ensures
            r == affordable(self@, estimated_usd as int),
    {
        if estimated_usd > self.config.per_request_cap_usd {
            return false;
        }
        let remaining = self.remaining_usd();
        assert(remaining as int * 10_000 <= u64::MAX as int * 100_000_000 * 10_000)
            by (nonlinear_arith)
            requires
                remaining as int == self@.total * 100_000_000 - self@.spent * 100_000_000
                    || remaining == 0,
                self@.total <= u64::MAX,
                self@.spent >= 0,
        ;
        let lhs: u128 = remaining * (MARGIN_SCALE as u128);
        match estimated_usd.checked_mul(self.config.safety_margin as u128) {
            Some(rhs) => {
                assert(rhs as int == self@.margin * estimated_usd as int) by (nonlinear_arith)
                    requires
                        rhs as int == estimated_usd as int * self.config.safety_margin as int,
                        self@.margin == self.config.safety_margin as int,
                ;
                lhs > rhs
            },
            None => {
                assert(self@.margin * estimated_usd as int > u128::MAX) by (nonlinear_arith)
                    requires
                        estimated_usd as int * self.config.safety_margin as int > u128::MAX,
                        self@.margin == self.config.safety_margin as int,
                ;
                false
            },
        }
    }

    /// Take a hold of `estimated_usd` before dispatching a request.
    ///
    /// Refused, with the ledger unchanged, when the estimate exceeds the
    /// per-request cap or the remaining budget is below margin × estimate.
    /// On failure of the request, call `reconcile(est, 0)` to release the hold;
    /// on success, `reconcile(est, actual)`.
    pub fn reserve(&mut self, estimated_usd: PicoUsd) -> (r: Result<(), BudgetError>)
        ensures
            final(self).spec_config() == old(self).spec_config(),
            match reserve_refusal(old(self)@, estimated_usd as int) {
                Some(e) => r == Err::<(), BudgetError>(e) && final(self)@ == old(self)@,
                None => r is Ok && final(self)@ == reserved(old(self)@, estimated_usd as int),
            },
    {
        if estimated_usd > self.config.per_request_cap_usd {
            return Err(
                BudgetError::PerRequestCapExceeded {
                    cap: self.config.per_request_cap_usd,
                    estimated: estimated_usd,
                },
            );
        }
        let estimated_raw = pico_to_raw(estimated_usd);
        let margin = self.config.safety_margin;
        let threshold_raw = match estimated_usd.checked_mul(margin as u128) {
            Some(p) => {
                assert(p as int == self@.margin * estimated_usd as int) by (nonlinear_arith)
                    requires
                        p as int == estimated_usd as int * margin as int,
                        self@.margin == margin as int,
                ;
                let q = round_div_u128(p, PICO_PER_RAW * (MARGIN_SCALE as u128));
                if q > u64::MAX as u128 {
                    u64::MAX
                } else {
                    q as u64
                }
            },
            None => {
                proof {
                    let x = self@.margin * estimated_usd as int;
                    assert(x > u128::MAX) by (nonlinear_arith)
                        requires
                            x == self@.margin * estimated_usd as int,
                            estimated_usd as int * margin as int > u128::MAX,
                            self@.margin == margin as int,
                    ;
                    assert(round_div(x, 1_000_000_000_000) > u64::MAX) by (nonlinear_arith)
                        requires
                            x > u128::MAX,
                    ;
                }
                u64::MAX
            },
        };
        let remaining_raw = self.remaining_raw();
        if remaining_raw < threshold_raw {
            return Err(
                BudgetError::Insufficient {
                    remaining: raw_to_pico(remaining_raw),
                    estimated: estimated_usd,
                    threshold: margin_times(margin, estimated_usd),
                },
            );
        }
        self.spent_centi_milli = self.spent_centi_milli.saturating_add(estimated_raw);
        Ok(())
    }

    /// Replace a hold of `estimated_usd` by the actual charge `actual_usd`
    /// (`actual_usd == 0` releases the hold). Never fails.
    pub fn reconcile(&mut self, estimated_usd: PicoUsd, actual_usd: PicoUsd) -> (r: Result<
        (),
        BudgetError,
    >)
        ensures
            r is Ok,
            final(self).spec_config() == old(self).spec_config(),
            final(self)@ == reconciled(old(self)@, estimated_usd as int, actual_usd as int),
    {
        let estimated_raw = pico_to_raw(estimated_usd);
        let actual_raw = pico_to_raw(actual_usd);
        self.spent_centi_milli = self.spent_centi_milli.saturating_sub(
            estimated_raw,
        ).saturating_add(actual_raw);
        Ok(())
    }

    /// Remaining, spent and total, in pico-dollars.
    pub fn snapshot(&self) -> (s: BudgetSnapshot)
        ensures
            s.remaining_usd == raw_to_usd(remaining_raw(self@)),
            s.spent_usd == raw_to_usd(self@.spent),
            s.total_usd == raw_to_usd(self@.total),
    {
        BudgetSnapshot {
            remaining_usd: self.remaining_usd(),
            spent_usd: self.spent_usd(),
            total_usd: raw_to_pico(self.total_centi_milli),
        }
    }
}

/// A point-in-time view of a budget, in pico-dollars.
#[derive(Debug, Clone, Copy)]
pub struct BudgetSnapshot {
    pub remaining_usd: PicoUsd,
    pub spent_usd: PicoUsd,
    pub total_usd: PicoUsd,
}

/// Why a hold was refused. Amounts in pico-dollars; `threshold` is
/// margin × estimate, the remaining balance the hold needed (compared in whole
/// ledger units).
#[derive(Debug, Clone, Copy, PartialEq, Eq, Structural)]
pub enum BudgetError {
    /// The remaining budget is below margin × estimate.
    Insufficient { remaining: PicoUsd, estimated: PicoUsd, threshold: PicoUsd },
    /// The estimate is above the per-request cap.
    PerRequestCapExceeded { cap: PicoUsd, estimated: PicoUsd },
}

// ───────────────────────────── laws ─────────────────────────────

/// A refused hold changes nothing, and a granted one holds exactly the estimate:
/// with a safety margin of at least 1, a granted hold never exceeds what remained,
/// so a reservation cannot overdraw the budget.
pub proof fn law_reserve_never_overdraws(l: BudgetLedger, est: int)
    requires
        0 <= l.spent <= u64::MAX,
        0 <= l.total <= u64::MAX,
        0 <= est <= u128::MAX,
        l.margin >= MARGIN_SCALE,
        reserve_refusal(l, est) is None,
    ensures
        usd_to_raw(est) <= remaining_raw(l),
        reserved(l, est).spent == l.spent + usd_to_raw(est),
        l.spent <= l.total ==> reserved(l, est).spent <= l.total,
{
    let d = PICO_PER_RAW as int * MARGIN_SCALE as int;
    assert(l.margin * est >= MARGIN_SCALE as int * est) by (nonlinear_arith)
        requires
            l.margin >= MARGIN_SCALE,
            est >= 0,
    ;
    assert(round_div(MARGIN_SCALE as int * est, d) == round_div(est, PICO_PER_RAW as int)) by {
        assert(MARGIN_SCALE as int * est + d / 2 == 10_000 * (est + PICO_PER_RAW as int / 2));
        assert(d == 10_000 * PICO_PER_RAW as int);
        lemma_div_multiples_vanish_quotient(10_000, est + PICO_PER_RAW as int / 2, PICO_PER_RAW as int);
    }
    lemma_div_is_ordered(MARGIN_SCALE as int * est + d / 2, l.margin * est + d / 2, d);
}

/// Releasing a hold undoes it: `reserve(est)` followed by `reconcile(est, 0)`
/// leaves the ledger as it was, whenever the hold did not saturate the ledger.
pub proof fn law_release_restores(l: BudgetLedger, est: int)
    requires
        0 <= l.spent <= u64::MAX,
        0 <= est,
        l.spent + usd_to_raw(est) <= u64::MAX,
    ensures
        reconciled(reserved(l, est), est, 0) == l,
{
}

/// Settling a hold charges exactly the actual cost: `reserve(est)` followed by
/// `reconcile(est, actual)` moves the spent amount by the actual cost alone.
pub proof fn law_settle_charges_actual(l: BudgetLedger, est: int, actual: int)
    requires
        0 <= l.spent <= u64::MAX,
        0 <= est,
        0 <= actual,
        l.spent + usd_to_raw(est) <= u64::MAX,
        l.spent + usd_to_raw(actual) <= u64::MAX,
    ensures
        reconciled(reserved(l, est), est, actual).spent == l.spent + usd_to_raw(actual),
{
}

/// A granted hold never exceeds the per-request cap.
pub proof fn law_reserve_respects_cap(l: BudgetLedger, est: int)
    requires
        reserve_refusal(l, est) is None,
    ensures
        est <= l.cap,
{
}

} // verus!
