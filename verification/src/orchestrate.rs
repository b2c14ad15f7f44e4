//! One request through the orchestration loop, as a state machine.
//!
//! The caller performs the I/O (sending the request to a provider) and hands
//! back what happened; the machine decides everything else: it gates every
//! dispatch on the budget (predictive check, then a hold), settles each hold
//! exactly once against the actual charge (or releases it on failure), records
//! failures in the history, and asks the critic for at most one retry target,
//! which is gated like the first attempt.
use vstd::prelude::*;
use crate::adapter::{CompletionRequest, ProviderId, ProviderInfo, estimate_cost, request_cost};
use crate::budget::{
    law_release_restores, law_reserve_never_overdraws, BudgetConfig, BudgetError, BudgetLedger,
    BudgetState, affordable, reconciled, remaining_raw, reserve_refusal, reserved,
};
use crate::critique::{
    DefaultCritic, FailureClass, FailureCritic, FailureEvent, FailureHistory, after_failure,
    default_class, default_retry, keep_newest, other_than, unexpired, MAX_FAILURE_EVENTS,
};
use crate::errors::GcError;
use crate::money::{PicoUsd, MARGIN_SCALE, PICO_PER_USD, raw_to_usd, usd_to_raw};
use crate::routing::RoutingDecision;

verus! {

/// Why an attempt was not dispatched.
#[derive(Debug)]
pub enum Refusal {
    /// No registered provider has this id.
    NotRegistered { provider: ProviderId },
    /// The predictive check failed: the remaining budget (pico-dollars) does
    /// not exceed margin × estimate, or the estimate is above the per-request cap.
    OverBudget { remaining: PicoUsd, estimated: PicoUsd },
    /// The hold itself was refused.
    Reserve { error: BudgetError },
}

/// The budget gate's verdict on a hold of `est` pico-dollars: `None` lets it
/// through.
pub open spec fn gate_refusal(l: BudgetLedger, est: int) -> Option<Refusal> {
    if !affordable(l, est) {
        Some(
            Refusal::OverBudget {
                remaining: raw_to_usd(remaining_raw(l)) as u128,
                estimated: est as u128,
            },
        )
    } else {
        match reserve_refusal(l, est) {
            Some(e) => Some(Refusal::Reserve { error: e }),
            None => None,
        }
    }
}

/// Gate a dispatch: the predictive check, then a hold of the estimate. A
/// refusal leaves the budget unchanged.
pub fn gate(budget: &mut BudgetState, estimated: PicoUsd) -> (r: Result<(), Refusal>)
    ensures
        final(budget).spec_config() == old(budget).spec_config(),
        match gate_refusal(old(budget)@, estimated as int) {
            Some(f) => r == Err::<(), Refusal>(f) && final(budget)@ == old(budget)@,
            None => r is Ok && final(budget)@ == reserved(old(budget)@, estimated as int),
        },
{
    if !budget.can_afford(estimated) {
        return Err(Refusal::OverBudget { remaining: budget.remaining_usd(), estimated });
    }
    match budget.reserve(estimated) {
        Ok(()) => Ok(()),
        Err(e) => Err(Refusal::Reserve { error: e }),
    }
}

/// `i` is the first position of a provider with this id.
pub open spec fn first_with_id(ps: Seq<ProviderInfo>, id: Seq<char>, i: int) -> bool {
    &&& 0 <= i < ps.len()
    &&& ps[i].id@ == id
    &&& forall|j: int| 0 <= j < i ==> (#[trigger] ps[j]).id@ != id
}

/// The registered provider with this id (the first, should there be several).
pub open spec fn lookup(ps: Seq<ProviderInfo>, id: Seq<char>) -> Option<ProviderInfo> {
    if exists|i: int| first_with_id(ps, id, i) {
        Some(ps[choose|i: int| first_with_id(ps, id, i)])
    } else {
        None
    }
}

proof fn lemma_lookup_at(ps: Seq<ProviderInfo>, id: Seq<char>, i: int)
    requires
        first_with_id(ps, id, i),
    ensures
        lookup(ps, id) == Some(ps[i]),
{
    let k = choose|k: int| first_with_id(ps, id, k);
    assert(first_with_id(ps, id, k));
    if k < i {
        assert(ps[k].id@ != id);
    }
    if i < k {
        assert(ps[i].id@ != id);
    }
}

/// Position of the first provider with this id, if any.
pub fn find_provider(ps: &[ProviderInfo], id: &ProviderId) -> (r: Option<usize>)
    ensures
        match r {
            Some(i) => first_with_id(ps@, id@, i as int) && lookup(ps@, id@) == Some(ps@[i as int]),
            None => lookup(ps@, id@) is None && forall|j: int|
                0 <= j < ps@.len() ==> (#[trigger] ps@[j]).id@ != id@,
        },
{
    let mut i: usize = 0;
    while i < ps.len()
        invariant
            i <= ps@.len(),
            forall|j: int| 0 <= j < i ==> (#[trigger] ps@[j]).id@ != id@,
        decreases ps@.len() - i,
    {
        if ps[i].id == *id {
            proof {
                lemma_lookup_at(ps@, id@, i as int);
            }
            return Some(i);
        }
        i = i + 1;
    }
    proof {
        if exists|k: int| first_with_id(ps@, id@, k) {
            let k = choose|k: int| first_with_id(ps@, id@, k);
            assert(ps@[k].id@ != id@);
        }
    }
    None
}

/// Rationale of a decision that the user forced.
pub open spec fn forced_rationale() -> Seq<char> {
    "forced provider (user override)"@
}

/// The ids of the providers other than `forced`, in order.
pub open spec fn other_ids(ps: Seq<ProviderInfo>, forced: Seq<char>) -> Seq<ProviderId> {
    ps.filter(other_than(forced)).map_values(|p: ProviderInfo| p.id)
}

/// A routing decision forced by the user: the named provider at the request's
/// estimated cost there, falling back to every other provider in order. `None`
/// when no provider has that id.
pub fn forced_decision(ps: &[ProviderInfo], request: &CompletionRequest, forced: &ProviderId) -> (r:
    Option<RoutingDecision>)
    ensures
        match lookup(ps@, forced@) {
            None => r is None,
            Some(p) => r matches Some(d) && d.provider == *forced && d.estimated_cost
                == request_cost(p, *request) && d.rationale@ == forced_rationale()
                && d.fallback_chain@ == other_ids(ps@, forced@),
        },
{
    let i = match find_provider(ps, forced) {
        None => return None,
        Some(i) => i,
    };
    let estimated_cost = estimate_cost(&ps[i], request);
    let ghost pred = other_than(forced@);
    let ghost f = |p: ProviderInfo| p.id;
    let mut chain: Vec<ProviderId> = Vec::new();
    let mut k: usize = 0;
    while k < ps.len()
        invariant
            k <= ps@.len(),
            pred == other_than(forced@),
            f == (|p: ProviderInfo| p.id),
            chain@ == ps@.take(k as int).filter(pred).map_values(f),
        decreases ps@.len() - k,
    {
        proof {
            let s = ps@;
            assert(s.take(k + 1) =~= s.take(k as int).push(s[k as int]));
            s.take(k as int).lemma_filter_push(s[k as int], pred);
        }
        if ps[k].id != *forced {
            chain.push(ps[k].id.clone());
            proof {
                let t = ps@.take(k as int).filter(pred);
                assert(t.push(ps@[k as int]).map_values(f) =~= t.map_values(f).push(ps@[k as int].id));
            }
        }
        k = k + 1;
    }
    assert(ps@.take(k as int) =~= ps@);
    Some(
        RoutingDecision {
            provider: forced.clone(),
            estimated_cost,
            rationale: String::from_str("forced provider (user override)"),
            fallback_chain: chain,
        },
    )
}

/// Which attempt is in flight, and the hold it carries.
#[derive(Debug)]
pub enum Stage {
    /// Nothing dispatched yet.
    Idle,
    /// The first attempt is in flight, holding `estimate`.
    Primary { provider: ProviderId, estimate: PicoUsd },
    /// The retry is in flight, holding `estimate`.
    Retry { provider: ProviderId, estimate: PicoUsd },
    /// Finished; no hold is outstanding.
    Done,
}

/// What the caller does next.
#[derive(Debug)]
pub enum Action {
    /// Send the request to `provider`; a hold of `estimate` is in place.
    Dispatch { provider: ProviderId, estimate: PicoUsd },
    /// The attempt at `provider` was not made. Finished.
    Refuse { provider: ProviderId, refusal: Refusal },
    /// `provider` answered and was charged `actual_cost`. Finished.
    Settle { provider: ProviderId, actual_cost: PicoUsd },
    /// `provider` failed with `class`; its hold was released. Finished.
    GiveUp { provider: ProviderId, class: FailureClass },
}

/// An attempt at provider `id` from ledger `l` (the retry when `retry` is
/// set). It is refused when no provider has that id or when the budget gate
/// turns it down; else it is dispatched, holding the request's estimated
/// cost at that provider.
pub open spec fn attempted(
    l: BudgetLedger,
    ps: Seq<ProviderInfo>,
    req: CompletionRequest,
    id: Seq<char>,
    retry: bool,
    a: Action,
    stage: Stage,
    l2: BudgetLedger,
) -> bool {
    match lookup(ps, id) {
        None => {
            &&& a matches Action::Refuse { provider, refusal: Refusal::NotRegistered { provider: q } }
                && provider@ == id && q@ == id
            &&& stage is Done
            &&& l2 == l
        },
        Some(p) => match gate_refusal(l, request_cost(p, req)) {
            Some(f) => {
                &&& a matches Action::Refuse { provider, refusal } && provider@ == id && refusal == f
                &&& stage is Done
                &&& l2 == l
            },
            None => {
                &&& a matches Action::Dispatch { provider, estimate } && provider@ == id && estimate
                    == request_cost(p, req)
                &&& if retry {
                    stage matches Stage::Retry { provider, estimate } && provider@ == id && estimate
                        == request_cost(p, req)
                } else {
                    stage matches Stage::Primary { provider, estimate } && provider@ == id
                        && estimate == request_cost(p, req)
                }
                &&& l2 == reserved(l, request_cost(p, req))
            },
        },
    }
}

/// `events2` is `events` with a failure of `p` with `class`, recorded at
/// `now`, appended (oldest dropped beyond the history's capacity).
pub open spec fn logged_at(
    events: Seq<FailureEvent>,
    p: ProviderId,
    class: FailureClass,
    events2: Seq<FailureEvent>,
    now: i64,
) -> bool {
    &&& now >= 0
    &&& events2 == keep_newest(
        events.push(
            FailureEvent {
                provider: p,
                class,
                timestamp: now,
                request_prompt_hash: events2.last().request_prompt_hash,
            },
        ),
        MAX_FAILURE_EVENTS as int,
    )
}

/// `bl2` is `bl` without the blocks expired at some time.
pub open spec fn pruned_from(bl: Map<Seq<char>, int>, bl2: Map<Seq<char>, int>) -> bool {
    exists|later: i64| later >= 0 && bl2 == #[trigger] unexpired(bl, later as int)
}

/// The failure history after a failure of `p` with `class` was recorded at
/// some time, and, when `prune` holds, expired blocks were then dropped.
pub open spec fn recorded(
    events: Seq<FailureEvent>,
    bl: Map<Seq<char>, int>,
    p: ProviderId,
    class: FailureClass,
    prune: bool,
    events2: Seq<FailureEvent>,
    bl2: Map<Seq<char>, int>,
) -> bool {
    &&& events2.len() > 0
    &&& events2.last().request_prompt_hash@ == Seq::<char>::empty()
    &&& exists|now: i64|
        #[trigger] logged_at(events, p, class, events2, now) && if prune {
            pruned_from(after_failure(bl, p@, class, now as int), bl2)
        } else {
            bl2 == after_failure(bl, p@, class, now as int)
        }
}

/// The orchestration of one request: budget, failure history, the registered
/// providers, the request, whether one retry is allowed, and the stage.
pub struct Orchestrator {
    budget: BudgetState,
    history: FailureHistory,
    providers: Vec<ProviderInfo>,
    request: CompletionRequest,
    retry_enabled: bool,
    stage: Stage,
}

impl Orchestrator {
    /// The budget ledger.
    pub closed spec fn ledger(&self) -> BudgetLedger {
        self.budget@
    }

    /// The recorded failures, oldest first.
    pub closed spec fn events(&self) -> Seq<FailureEvent> {
        self.history.events()
    }

    /// The failure blocklist.
    pub closed spec fn blocklist(&self) -> Map<Seq<char>, int> {
        self.history.blocklist()
    }

    /// The registered providers.
    pub closed spec fn providers(&self) -> Seq<ProviderInfo> {
        self.providers@
    }

    /// The request being orchestrated.
    pub closed spec fn request(&self) -> CompletionRequest {
        self.request
    }

    /// Whether a failed first attempt may be retried once.
    pub closed spec fn retries(&self) -> bool {
        self.retry_enabled
    }

    /// The stage.
    pub closed spec fn stage(&self) -> Stage {
        self.stage
    }

    /// A fresh orchestration: a new budget with `config`, an empty failure
    /// history, nothing dispatched.
    pub fn new(
        config: BudgetConfig,
        providers: Vec<ProviderInfo>,
        request: CompletionRequest,
        retry_enabled: bool,
    ) -> (o: Self)
        ensures
            o.ledger().spent == 0,
            o.ledger().total == crate::money::usd_to_raw(config.total_usd as int),
            o.ledger().cap == config.per_request_cap_usd,
            o.ledger().margin == config.safety_margin,
            o.events() == Seq::<FailureEvent>::empty(),
            o.blocklist() == Map::<Seq<char>, int>::empty(),
            o.providers() == providers@,
            o.request() == request,
            o.retries() == retry_enabled,
            o.stage() is Idle,
    {
        Orchestrator {
            budget: BudgetState::new(config),
            history: FailureHistory::new(),
            providers,
            request,
            retry_enabled,
            stage: Stage::Idle,
        }
    }

    /// The budget, for routing policies and snapshots.
    pub fn budget(&self) -> (b: &BudgetState)
        ensures
            b@ == self.ledger(),
    {
        &self.budget
    }

    /// The failure history, for routing policies and inspection.
    pub fn history(&self) -> (h: &FailureHistory)
        ensures
            h.events() == self.events(),
            h.blocklist() == self.blocklist(),
    {
        &self.history
    }

    /// The registered providers.
    pub fn provider_list(&self) -> (ps: &Vec<ProviderInfo>)
        ensures
            ps@ == self.providers(),
    {
        &self.providers
    }

    /// The request being orchestrated.
    pub fn current_request(&self) -> (r: &CompletionRequest)
        ensures
            *r == self.request(),
    {
        &self.request
    }

    /// Whether an attempt is in flight (awaiting a reply or a failure).
    pub fn in_flight(&self) -> (r: bool)
        ensures
            r == (self.stage() is Primary || self.stage() is Retry),
    {
        match self.stage {
            Stage::Primary { .. } => true,
            Stage::Retry { .. } => true,
            _ => false,
        }
    }

    /// Whether nothing has been dispatched yet.
    pub fn is_idle(&self) -> (r: bool)
        ensures
            r == self.stage() is Idle,
    {
        match self.stage {
            Stage::Idle => true,
            _ => false,
        }
    }

    /// Take up the next request with the same budget and failure history,
    /// once nothing is in flight (so no hold carries over).
    pub fn next_request(&mut self, request: CompletionRequest)
        requires
            !(old(self).stage() is Primary || old(self).stage() is Retry),
        ensures
            final(self).ledger() == old(self).ledger(),
            final(self).events() == old(self).events(),
            final(self).blocklist() == old(self).blocklist(),
            final(self).providers() == old(self).providers(),
            final(self).retries() == old(self).retries(),
            final(self).request() == request,
            final(self).stage() is Idle,
    {
        self.request = request;
        self.stage = Stage::Idle;
    }

    fn attempt(&mut self, id: &ProviderId, retry: bool) -> (a: Action)
        ensures
            final(self).events() == old(self).events(),
            final(self).blocklist() == old(self).blocklist(),
            final(self).providers() == old(self).providers(),
            final(self).request() == old(self).request(),
            final(self).retries() == old(self).retries(),
            attempted(
                old(self).ledger(),
                old(self).providers(),
                old(self).request(),
                id@,
                retry,
                a,
                final(self).stage(),
                final(self).ledger(),
            ),
    {
        match find_provider(self.providers.as_slice(), id) {
            None => {
                self.stage = Stage::Done;
                Action::Refuse {
                    provider: id.clone(),
                    refusal: Refusal::NotRegistered { provider: id.clone() },
                }
            },
            Some(i) => {
                let estimate = estimate_cost(&self.providers[i], &self.request);
                match gate(&mut self.budget, estimate) {
                    Err(f) => {
                        self.stage = Stage::Done;
                        Action::Refuse { provider: id.clone(), refusal: f }
                    },
                    Ok(()) => {
                        self.stage = if retry {
                            Stage::Retry { provider: id.clone(), estimate }
                        } else {
                            Stage::Primary { provider: id.clone(), estimate }
                        };
                        Action::Dispatch { provider: id.clone(), estimate }
                    },
                }
            },
        }
    }

    /// Begin with the routed (or forced) provider: gate its estimated cost
    /// and dispatch, or refuse.
    pub fn start(&mut self, provider: &ProviderId) -> (a: Action)
        requires
            old(self).stage() is Idle,
        ensures
            final(self).events() == old(self).events(),
            final(self).blocklist() == old(self).blocklist(),
            final(self).providers() == old(self).providers(),
            final(self).request() == old(self).request(),
            final(self).retries() == old(self).retries(),
            attempted(
                old(self).ledger(),
                old(self).providers(),
                old(self).request(),
                provider@,
                false,
                a,
                final(self).stage(),
                final(self).ledger(),
            ),
    {
        self.attempt(provider, false)
    }

    /// The provider in flight answered and was billed `actual_cost`: the hold
    /// is replaced by the charge.
    pub fn on_reply(&mut self, actual_cost: PicoUsd) -> (a: Action)
        requires
            old(self).stage() is Primary || old(self).stage() is Retry,
        ensures
            final(self).events() == old(self).events(),
            final(self).blocklist() == old(self).blocklist(),
            final(self).providers() == old(self).providers(),
            final(self).request() == old(self).request(),
            final(self).retries() == old(self).retries(),
            final(self).stage() is Done,
            match old(self).stage() {
                Stage::Primary { provider, estimate } | Stage::Retry { provider, estimate } => {
                    &&& a == (Action::Settle { provider, actual_cost })
                    &&& final(self).ledger() == reconciled(
                        old(self).ledger(),
                        estimate as int,
                        actual_cost as int,
                    )
                },
                _ => false,
            },
    {
        let (provider, estimate) = match &self.stage {
            Stage::Primary { provider, estimate } => (provider.clone(), *estimate),
            Stage::Retry { provider, estimate } => (provider.clone(), *estimate),
            _ => {
                proof {
                    assert(false);
                }
                (ProviderId(String::new()), 0)
            },
        };
        let _ = self.budget.reconcile(estimate, actual_cost);
        self.stage = Stage::Done;
        Action::Settle { provider, actual_cost }
    }

    /// The provider in flight failed with `error`. Its hold is released and
    /// the failure classified. After a first attempt the failure is recorded
    /// (dropping expired blocks when retries are allowed) and, when retries
    /// are allowed, the critic's retry target is gated and dispatched, or
    /// refused; without a target, or after the retry, the orchestration gives
    /// up. Returns the class, the retry target, and the next action.
    pub fn on_failure(&mut self, error: &GcError) -> (r: (FailureClass, Option<ProviderId>, Action))
        requires
            old(self).stage() is Primary || old(self).stage() is Retry,
        ensures
            r.0 == default_class(*error),
            final(self).providers() == old(self).providers(),
            final(self).request() == old(self).request(),
            final(self).retries() == old(self).retries(),
            match old(self).stage() {
                Stage::Primary { provider, estimate } => {
                    let released = reconciled(old(self).ledger(), estimate as int, 0);
                    &&& recorded(
                        old(self).events(),
                        old(self).blocklist(),
                        provider,
                        r.0,
                        old(self).retries(),
                        final(self).events(),
                        final(self).blocklist(),
                    )
                    &&& if !old(self).retries() {
                        &&& r.1 is None
                        &&& r.2 == (Action::GiveUp { provider, class: r.0 })
                        &&& final(self).stage() is Done
                        &&& final(self).ledger() == released
                    } else {
                        &&& default_retry(r.0, provider@, old(self).providers(), r.1)
                        &&& match r.1 {
                            None => {
                                &&& r.2 == (Action::GiveUp { provider, class: r.0 })
                                &&& final(self).stage() is Done
                                &&& final(self).ledger() == released
                            },
                            Some(q) => attempted(
                                released,
                                old(self).providers(),
                                old(self).request(),
                                q@,
                                true,
                                r.2,
                                final(self).stage(),
                                final(self).ledger(),
                            ),
                        }
                    }
                },
                Stage::Retry { provider, estimate } => {
                    &&& r.1 is None
                    &&& r.2 == (Action::GiveUp { provider, class: r.0 })
                    &&& final(self).stage() is Done
                    &&& final(self).ledger() == reconciled(old(self).ledger(), estimate as int, 0)
                    &&& final(self).events() == old(self).events()
                    &&& final(self).blocklist() == old(self).blocklist()
                },
                _ => false,
            },
    {
        let critic = DefaultCritic;
        let class = critic.classify(error);
        match &self.stage {
            Stage::Retry { provider, estimate } => {
                let provider = provider.clone();
                let estimate = *estimate;
                let _ = self.budget.reconcile(estimate, 0);
                self.stage = Stage::Done;
                (class, None, Action::GiveUp { provider, class })
            },
            Stage::Primary { provider, estimate } => {
                let provider = provider.clone();
                let estimate = *estimate;
                let _ = self.budget.reconcile(estimate, 0);
                let ghost events0 = self.history.events();
                let ghost bl0 = self.history.blocklist();
                self.history.record(provider.clone(), class);
                let ghost bl1 = self.history.blocklist();
                let ghost e2 = self.history.events();
                let ghost now = choose|now: i64|
                    now >= 0 && e2 == keep_newest(
                        events0.push(
                            FailureEvent {
                                provider,
                                class,
                                timestamp: now,
                                request_prompt_hash: e2.last().request_prompt_hash,
                            },
                        ),
                        MAX_FAILURE_EVENTS as int,
                    ) && bl1 == after_failure(bl0, provider@, class, now as int);
                assert(logged_at(events0, provider, class, e2, now));
                if self.retry_enabled {
                    self.history.prune_blocklist();
                    assert(pruned_from(bl1, self.history.blocklist()));
                    let retry = critic.recommend_retry(&class, &provider, self.providers.as_slice());
                    match retry {
                        None => {
                            self.stage = Stage::Done;
                            (class, None, Action::GiveUp { provider, class })
                        },
                        Some(q) => {
                            let a = self.attempt(&q, true);
                            (class, Some(q), a)
                        },
                    }
                } else {
                    self.stage = Stage::Done;
                    (class, None, Action::GiveUp { provider, class })
                }
            },
            _ => {
                proof {
                    assert(false);
                }
                (class, None, Action::GiveUp { provider: ProviderId(String::new()), class })
            },
        }
    }
}

/// The budget of a single routed request: `budget_usd` (pico-dollars) both as
/// the total and as the per-request cap, with a safety margin of 1.2.
pub fn request_budget(budget_usd: PicoUsd) -> (c: BudgetConfig)
    ensures
        c.total_usd == budget_usd,
        c.per_request_cap_usd == budget_usd,
        c.safety_margin == 12_000,
{
    BudgetConfig { total_usd: budget_usd, per_request_cap_usd: budget_usd, safety_margin: 12_000 }
}

/// The fresh budget each policy gets in a benchmark: $1 in total, $0.25 per
/// request, a safety margin of 1.2.
pub fn benchmark_budget() -> (c: BudgetConfig)
    ensures
        c.total_usd == PICO_PER_USD,
        c.per_request_cap_usd == PICO_PER_USD / 4,
        c.safety_margin == 12_000,
{
    BudgetConfig {
        total_usd: PICO_PER_USD,
        per_request_cap_usd: PICO_PER_USD / 4,
        safety_margin: 12_000,
    }
}

/// Running totals of one routing policy over a benchmark task suite.
#[derive(Debug, Clone, Copy)]
pub struct Tally {
    /// Tasks answered.
    pub successful: usize,
    /// Sum of the actual charges, in pico-dollars.
    pub total_cost: PicoUsd,
    /// Sum of input and output tokens of the answered tasks.
    pub total_tokens: u32,
    /// Sum of the latencies of the answered tasks, in milliseconds.
    pub total_latency_ms: u64,
}

impl Tally {
    /// All totals zero.
    pub fn new() -> (t: Self)
        ensures
            t.successful == 0,
            t.total_cost == 0,
            t.total_tokens == 0,
            t.total_latency_ms == 0,
    {
        Tally { successful: 0, total_cost: 0, total_tokens: 0, total_latency_ms: 0 }
    }

    /// Count an answered task.
    pub fn add_success(
        &mut self,
        actual_cost: PicoUsd,
        input_tokens: u32,
        output_tokens: u32,
        latency_ms: u64,
    )
        requires
            old(self).successful < usize::MAX,
            old(self).total_cost + actual_cost <= u128::MAX,
            old(self).total_tokens + input_tokens + output_tokens <= u32::MAX,
            old(self).total_latency_ms + latency_ms <= u64::MAX,
        ensures
            final(self).successful == old(self).successful + 1,
            final(self).total_cost == old(self).total_cost + actual_cost,
            final(self).total_tokens == old(self).total_tokens + input_tokens + output_tokens,
            final(self).total_latency_ms == old(self).total_latency_ms + latency_ms,
    {
        self.successful = self.successful + 1;
        self.total_cost = self.total_cost + actual_cost;
        self.total_tokens = self.total_tokens + input_tokens + output_tokens;
        self.total_latency_ms = self.total_latency_ms + latency_ms;
    }
}

// ───────────────────────────── laws ─────────────────────────────

/// Every dispatch passes the budget gate: the provider is registered, the
/// request's estimated cost there is affordable, its hold was granted, and
/// the ledger carries exactly that hold.
pub proof fn law_dispatch_is_gated(
    l: BudgetLedger,
    ps: Seq<ProviderInfo>,
    req: CompletionRequest,
    id: Seq<char>,
    retry: bool,
    a: Action,
    stage: Stage,
    l2: BudgetLedger,
)
    requires
        attempted(l, ps, req, id, retry, a, stage, l2),
        a is Dispatch,
    ensures
        lookup(ps, id) is Some,
        a->Dispatch_estimate == request_cost(lookup(ps, id)->0, req),
        affordable(l, a->Dispatch_estimate as int),
        reserve_refusal(l, a->Dispatch_estimate as int) is None,
        l2 == reserved(l, a->Dispatch_estimate as int),
{
}

/// A dispatched attempt that fails costs nothing: releasing its hold leaves
/// the ledger exactly as it was before the attempt.
pub proof fn law_failed_attempt_costs_nothing(
    l: BudgetLedger,
    ps: Seq<ProviderInfo>,
    req: CompletionRequest,
    id: Seq<char>,
    retry: bool,
    a: Action,
    stage: Stage,
    l2: BudgetLedger,
)
    requires
        attempted(l, ps, req, id, retry, a, stage, l2),
        a is Dispatch,
        0 <= l.spent <= l.total <= u64::MAX,
        l.margin >= MARGIN_SCALE,
    ensures
        reconciled(l2, a->Dispatch_estimate as int, 0) == l,
{
    let est = a->Dispatch_estimate as int;
    law_reserve_never_overdraws(l, est);
    law_release_restores(l, est);
}

/// An answered attempt is charged exactly its actual cost: settling its hold
/// moves the spent amount from where it was before the attempt by the actual
/// cost alone.
pub proof fn law_answered_attempt_charges_actual(
    l: BudgetLedger,
    ps: Seq<ProviderInfo>,
    req: CompletionRequest,
    id: Seq<char>,
    retry: bool,
    a: Action,
    stage: Stage,
    l2: BudgetLedger,
    actual: int,
)
    requires
        attempted(l, ps, req, id, retry, a, stage, l2),
        a is Dispatch,
        0 <= l.spent <= l.total <= u64::MAX,
        l.margin >= MARGIN_SCALE,
        0 <= actual,
        l.spent + usd_to_raw(actual) <= u64::MAX,
    ensures
        reconciled(l2, a->Dispatch_estimate as int, actual).spent == l.spent + usd_to_raw(actual),
{
    let est = a->Dispatch_estimate as int;
    law_reserve_never_overdraws(l, est);
}

/// Over a whole orchestration whose first attempt fails and whose retry
/// answers, the budget is charged the retry's actual cost and nothing else:
/// the failed attempt's hold is gone and the retry's hold became the charge.
pub proof fn law_retried_run_charges_only_the_answer(
    l0: BudgetLedger,
    ps: Seq<ProviderInfo>,
    req: CompletionRequest,
    first: Seq<char>,
    a1: Action,
    s1: Stage,
    l1: BudgetLedger,
    retry: Seq<char>,
    a2: Action,
    s2: Stage,
    l2: BudgetLedger,
    actual: int,
)
    requires
        attempted(l0, ps, req, first, false, a1, s1, l1),
        a1 is Dispatch,
        attempted(reconciled(l1, a1->Dispatch_estimate as int, 0), ps, req, retry, true, a2, s2, l2),
        a2 is Dispatch,
        0 <= l0.spent <= l0.total <= u64::MAX,
        l0.margin >= MARGIN_SCALE,
        0 <= actual,
        l0.spent + usd_to_raw(actual) <= u64::MAX,
    ensures
        reconciled(l2, a2->Dispatch_estimate as int, actual).spent == l0.spent + usd_to_raw(actual),
{
    law_failed_attempt_costs_nothing(l0, ps, req, first, false, a1, s1, l1);
    law_answered_attempt_charges_actual(l0, ps, req, retry, true, a2, s2, l2, actual);
}

} // verus!
