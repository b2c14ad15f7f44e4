//! Routing policies: which provider handles a request, why, and what to fall
//! back to.
//!
//! Every built-in policy first keeps the providers that the budget can afford
//! for the request and that are not blocklisted, then ranks them with a stable
//! sort on its own key; the first ranked provider is selected and the rest, in
//! rank order, form the fallback chain.
//!
//! Quality scores are fixed point over [`QUALITY_SCALE`] (10_000_000 is 1.0);
//! weights and penalties over [`WEIGHT_SCALE`] (10_000 is 1.0).
use vstd::prelude::*;
use crate::adapter::{
    CompletionRequest, ProviderId, ProviderInfo, estimate_cost, input_token_estimate, request_cost,
};
use crate::budget::{BudgetLedger, BudgetState, affordable};
use crate::clock::now_micros;
use crate::critique::{FailureHistory, blocked_at, failure_count, MAX_FAILURE_EVENTS};
use crate::money::{PicoUsd, PICO_PER_USD};
use crate::ranking::{
    law_first_ranked_is_least, law_ranking_lists_each_once, lists_each_once, stable_order,
    stable_ranking,
};
use crate::text::{
    chars_of, decimal, decimal_string, fixed_string, fixed_text, lemma_pow10_values, str_eq, trim_ws,
    trimmed,
};

verus! {

/// Fixed-point scale of quality scores: 10_000_000 stands for 1.0.
pub const QUALITY_SCALE: u32 = 10_000_000;

/// Fixed-point scale of weights and penalties: 10_000 stands for 1.0.
pub const WEIGHT_SCALE: u64 = 10_000;

/// A routing decision: which provider to use, why, and what to fall back to.
#[derive(Debug)]
pub struct RoutingDecision {
    pub provider: ProviderId,
    /// Predicted cost of the request at the selected provider, in pico-dollars.
    pub estimated_cost: PicoUsd,
    pub rationale: String,
    pub fallback_chain: Vec<ProviderId>,
}

impl Clone for RoutingDecision {
    fn clone(&self) -> (r: Self)
        ensures
            r.provider == self.provider,
            r.estimated_cost == self.estimated_cost,
            r.rationale@ == self.rationale@,
            r.fallback_chain@ == self.fallback_chain@,
    {
        RoutingDecision {
            provider: self.provider.clone(),
            estimated_cost: self.estimated_cost,
            rationale: self.rationale.clone(),
            fallback_chain: clone_ids(&self.fallback_chain),
        }
    }
}

/// A copy of a list of provider ids.
pub fn clone_ids(ids: &Vec<ProviderId>) -> (r: Vec<ProviderId>)
    ensures
        r@ == ids@,
{
    let mut r: Vec<ProviderId> = Vec::new();
    let mut i: usize = 0;
    while i < ids.len()
        invariant
            i <= ids@.len(),
            r@ == ids@.take(i as int),
        decreases ids@.len() - i,
    {
        r.push(ids[i].clone());
        assert(ids@.take(i + 1) =~= ids@.take(i as int).push(ids@[i as int]));
        i = i + 1;
    }
    assert(ids@.take(i as int) =~= ids@);
    r
}

/// The routing policy trait. Each policy decides which provider to use given
/// the request, budget state, failure history, and available providers. This is
/// the core extension point — implement it to define custom routing.
pub trait RoutingPolicy {
    /// The policy's name, by which registries find it.
    spec fn policy_name(&self) -> Seq<char>;

    fn select(
        &self,
        request: &CompletionRequest,
        budget: &BudgetState,
        history: &FailureHistory,
        providers: &[ProviderInfo],
    ) -> Option<RoutingDecision>;

    fn name(&self) -> (r: &str)
        ensures
            r@ == self.policy_name(),
    ;

    fn description(&self) -> (r: &str)
        default_ensures
            r@ == ""@,
    {
        ""
    }
}

// ───────────────────────── candidates and ranking ─────────────────────────

/// A provider the budget can afford for the request and that is not
/// blocklisted at `now`.
pub open spec fn eligible(
    budget: BudgetLedger,
    blocklist: Map<Seq<char>, int>,
    request: CompletionRequest,
    now: int,
) -> spec_fn(ProviderInfo) -> bool {
    |p: ProviderInfo|
        affordable(budget, request_cost(p, request)) && !blocked_at(blocklist, p.id@, now)
}

/// The eligible providers, in the order given.
pub open spec fn candidates(
    providers: Seq<ProviderInfo>,
    request: CompletionRequest,
    budget: BudgetLedger,
    blocklist: Map<Seq<char>, int>,
    now: int,
) -> Seq<ProviderInfo> {
    providers.filter(eligible(budget, blocklist, request, now))
}

/// The ids of the ranked candidates after the first: the fallback chain.
pub open spec fn fallback_ids(c: Seq<ProviderInfo>, order: Seq<usize>) -> Seq<ProviderId> {
    order.drop_first().map_values(|k: usize| c[k as int].id)
}

/// `d` selects the first ranked candidate, at its estimated cost, and falls back
/// to the others in rank order.
pub open spec fn follows_ranking(
    c: Seq<ProviderInfo>,
    order: Seq<usize>,
    request: CompletionRequest,
    d: RoutingDecision,
) -> bool {
    &&& order.len() > 0
    &&& d.provider == c[order[0] as int].id
    &&& d.estimated_cost == request_cost(c[order[0] as int], request)
    &&& d.fallback_chain@ == fallback_ids(c, order)
}

/// `d` routes among the eligible providers of `ps`: it selects a provider of
/// `ps` at its estimated cost, which the budget affords and which is not
/// blocklisted, and the selected provider followed by the fallback chain ranks
/// each candidate exactly once.
pub open spec fn routes_among(
    ps: Seq<ProviderInfo>,
    request: CompletionRequest,
    budget: BudgetLedger,
    blocklist: Map<Seq<char>, int>,
    now: int,
    d: RoutingDecision,
) -> bool {
    let c = candidates(ps, request, budget, blocklist, now);
    &&& affordable(budget, d.estimated_cost as int)
    &&& !blocked_at(blocklist, d.provider@, now)
    &&& exists|i: int|
        0 <= i < ps.len() && (#[trigger] ps[i]).id == d.provider && request_cost(ps[i], request)
            == d.estimated_cost
    &&& exists|order: Seq<usize>|
        lists_each_once(order, c.len() as int) && #[trigger] follows_ranking(c, order, request, d)
}

proof fn lemma_ranked_decision_routes(
    ps: Seq<ProviderInfo>,
    request: CompletionRequest,
    budget: BudgetLedger,
    blocklist: Map<Seq<char>, int>,
    now: int,
    keys: Seq<i128>,
    order: Seq<usize>,
    d: RoutingDecision,
)
    requires
        stable_ranking(keys, order),
        keys.len() == candidates(ps, request, budget, blocklist, now).len(),
        follows_ranking(candidates(ps, request, budget, blocklist, now), order, request, d),
    ensures
        routes_among(ps, request, budget, blocklist, now, d),
{
    let c = candidates(ps, request, budget, blocklist, now);
    let pred = eligible(budget, blocklist, request, now);
    law_ranking_lists_each_once(keys, order);
    let k = order[0] as int;
    ps.lemma_filter_pred(pred, k);
    assert(c.contains(c[k]));
    ps.lemma_filter_contains_rev(pred, c[k]);
    let i = choose|i: int| 0 <= i < ps.len() && ps[i] == c[k];
    assert(ps[i].id == d.provider);
}

fn eligible_providers(
    request: &CompletionRequest,
    budget: &BudgetState,
    history: &FailureHistory,
    providers: &[ProviderInfo],
    now: i64,
) -> (c: Vec<ProviderInfo>)
    ensures
        c@ == candidates(providers@, *request, budget@, history.blocklist(), now as int),
{
    let ghost pred = eligible(budget@, history.blocklist(), *request, now as int);
    let mut c: Vec<ProviderInfo> = Vec::new();
    let mut i: usize = 0;
    while i < providers.len()
        invariant
            i <= providers@.len(),
            pred == eligible(budget@, history.blocklist(), *request, now as int),
            c@ == providers@.take(i as int).filter(pred),
        decreases providers@.len() - i,
    {
        proof {
            let s = providers@;
            assert(s.take(i + 1) =~= s.take(i as int).push(s[i as int]));
            s.take(i as int).lemma_filter_push(s[i as int], pred);
        }
        let p = &providers[i];
        if budget.can_afford(estimate_cost(p, request)) && !history.is_blocklisted_at(&p.id, now) {
            c.push(p.clone());
        }
        i = i + 1;
    }
    assert(providers@.take(i as int) =~= providers@);
    c
}

/// Selected id and fallback chain from a ranking of the candidates.
fn decide(c: &Vec<ProviderInfo>, order: &Vec<usize>) -> (r: (ProviderId, Vec<ProviderId>))
    requires
        order@.len() > 0,
        forall|i: int| 0 <= i < order@.len() ==> #[trigger] order@[i] < c@.len(),
    ensures
        r.0 == c@[order@[0] as int].id,
        r.1@ == fallback_ids(c@, order@),
{
    let first = c[order[0]].id.clone();
    let mut rest: Vec<ProviderId> = Vec::new();
    let mut i: usize = 1;
    while i < order.len()
        invariant
            1 <= i <= order@.len(),
            forall|k: int| 0 <= k < order@.len() ==> #[trigger] order@[k] < c@.len(),
            rest@ == order@.subrange(1, i as int).map_values(|k: usize| c@[k as int].id),
        decreases order@.len() - i,
    {
        rest.push(c[order[i]].id.clone());
        assert(order@.subrange(1, i + 1).map_values(|k: usize| c@[k as int].id) =~= order@.subrange(
            1,
            i as int,
        ).map_values(|k: usize| c@[k as int].id).push(c@[order@[i as int] as int].id));
        i = i + 1;
    }
    assert(order@.subrange(1, i as int) =~= order@.drop_first());
    (first, rest)
}

// ─────────────────────────────── scores ───────────────────────────────

#[derive(Debug)]
struct ScoreEntry {
    provider: ProviderId,
    score: u32,
}

/// Per-provider quality scores (fixed point over [`QUALITY_SCALE`]).
#[derive(Debug)]
pub struct ScoreTable {
    entries: Vec<ScoreEntry>,
}

spec fn score_keys_unique(s: Seq<ScoreEntry>) -> bool {
    forall|i: int, j: int|
        0 <= i < s.len() && 0 <= j < s.len() && i != j ==> s[i].provider@ != s[j].provider@
}

spec fn has_score(s: Seq<ScoreEntry>, p: Seq<char>) -> bool {
    exists|i: int| 0 <= i < s.len() && s[i].provider@ == p
}

spec fn score_index(s: Seq<ScoreEntry>, p: Seq<char>) -> int {
    choose|i: int| 0 <= i < s.len() && s[i].provider@ == p
}

spec fn score_map(s: Seq<ScoreEntry>) -> Map<Seq<char>, u32> {
    Map::new(|p: Seq<char>| has_score(s, p), |p: Seq<char>| s[score_index(s, p)].score)
}

proof fn lemma_score_map_at(s: Seq<ScoreEntry>, k: int)
    requires
        score_keys_unique(s),
        0 <= k < s.len(),
    ensures
        score_map(s).contains_key(s[k].provider@),
        score_map(s)[s[k].provider@] == s[k].score,
{
    let p = s[k].provider@;
    assert(has_score(s, p));
    let j = score_index(s, p);
    assert(s[j].provider@ == p);
}

/// The score of `p` in `m`, or `default` when it has none.
pub open spec fn score_or(m: Map<Seq<char>, u32>, p: Seq<char>, default: u32) -> u32 {
    if m.contains_key(p) { m[p] } else { default }
}

impl ScoreTable {
    #[verifier::type_invariant]
    spec fn well_formed(self) -> bool {
        score_keys_unique(self.entries@)
    }

    /// Provider → score.
    pub closed spec fn view_map(&self) -> Map<Seq<char>, u32> {
        score_map(self.entries@)
    }

    /// No scores.
    pub fn new() -> (t: Self)
        ensures
            t.view_map() == Map::<Seq<char>, u32>::empty(),
    {
        let t = ScoreTable { entries: Vec::new() };
        assert(t.view_map() =~= Map::<Seq<char>, u32>::empty());
        t
    }

    fn find(&self, provider: &ProviderId) -> (r: Option<usize>)
        ensures
            match r {
                Some(k) => k < self.entries@.len() && self.entries@[k as int].provider@
                    == provider@,
                None => !has_score(self.entries@, provider@),
            },
    {
        let mut i: usize = 0;
        while i < self.entries.len()
            invariant
                i <= self.entries@.len(),
                forall|k: int| 0 <= k < i ==> self.entries@[k].provider@ != provider@,
            decreases self.entries@.len() - i,
        {
            if self.entries[i].provider == *provider {
                return Some(i);
            }
            i = i + 1;
        }
        None
    }

    /// The score of a provider, if it has one.
    pub fn get(&self, provider: &ProviderId) -> (r: Option<u32>)
        ensures
            r == (if self.view_map().contains_key(provider@) {
                Some(self.view_map()[provider@])
            } else {
                None::<u32>
            }),
    {
        proof {
            use_type_invariant(self);
        }
        match self.find(provider) {
            Some(k) => {
                proof {
                    lemma_score_map_at(self.entries@, k as int);
                }
                Some(self.entries[k].score)
            },
            None => None,
        }
    }

    /// Set (or replace) the score of a provider.
    pub fn insert(&mut self, provider: ProviderId, score: u32)
        ensures
            final(self).view_map() == old(self).view_map().insert(provider@, score),
    {
        proof {
            use_type_invariant(&*self);
        }
        let ghost old_s = self.entries@;
        let found = self.find(&provider);
        let mut entries: Vec<ScoreEntry> = Vec::new();
        std::mem::swap(&mut entries, &mut self.entries);
        let ghost p = provider@;
        match found {
            Some(k) => {
                entries.set(k, ScoreEntry { provider, score });
            },
            None => {
                entries.push(ScoreEntry { provider, score });
            },
        }
        proof {
            let s = entries@;
            let n = old_s.len();
            let k: int = match found {
                Some(k) => k as int,
                None => n as int,
            };
            assert(s[k].provider@ == p && s[k].score == score);
            assert(forall|j: int| 0 <= j < s.len() && j != k ==> s[j] == old_s[j]);
            assert(score_keys_unique(s));
            lemma_score_map_at(s, k);
            assert forall|q: Seq<char>| #[trigger]
                score_map(s).contains_key(q) == score_map(old_s).insert(p, score).contains_key(q) by {
                if q != p {
                    if has_score(old_s, q) {
                        let j = score_index(old_s, q);
                        assert(s[j].provider@ == q);
                    }
                    if has_score(s, q) {
                        let j = score_index(s, q);
                        assert(old_s[j].provider@ == q);
                    }
                }
            }
            assert forall|q: Seq<char>| #[trigger]
                score_map(s).contains_key(q) && q != p implies score_map(s)[q] == score_map(
                old_s,
            )[q] by {
                let j = score_index(s, q);
                assert(old_s[j].provider@ == q);
                lemma_score_map_at(old_s, j);
                lemma_score_map_at(s, j);
            }
            assert(score_map(s) =~= score_map(old_s).insert(p, score));
        }
        self.entries = entries;
    }
}

// ─────────────────────────── cheapest-first ───────────────────────────

/// Cheapest-first: always picks the cheapest provider that can handle the request.
/// No quality awareness. Pure cost optimization.
pub struct CheapestFirst;

/// Rationale of a cheapest-first decision.
pub open spec fn cheapest_rationale(cost: int) -> Seq<char> {
    "cheapest available provider at $"@ + fixed_text(false, cost as nat, PICO_PER_USD as nat, 6)
        + "/request"@
}

/// Cheapest-first ranks candidates by estimated cost, cheapest first.
pub open spec fn cost_keys(c: Seq<ProviderInfo>, request: CompletionRequest) -> Seq<i128> {
    c.map_values(|p: ProviderInfo| request_cost(p, request) as i128)
}

/// The cheapest-first decision over the candidates `c`.
pub open spec fn cheapest_decision(
    c: Seq<ProviderInfo>,
    request: CompletionRequest,
    r: Option<RoutingDecision>,
) -> bool {
    if c.len() == 0 {
        r is None
    } else {
        exists|order: Seq<usize>|
            #![trigger stable_ranking(cost_keys(c, request), order)]
            stable_ranking(cost_keys(c, request), order) && match r {
                Some(d) => follows_ranking(c, order, request, d) && d.rationale@
                    == cheapest_rationale(d.estimated_cost as int),
                None => false,
            }
    }
}

/// `s@ == a@ + b@ + c@`.
fn concat3(a: &str, b: &str, c: &str) -> (s: String)
    ensures
        s@ == a@ + b@ + c@,
{
    let mut s = String::from_str(a);
    s.append(b);
    s.append(c);
    s
}

impl CheapestFirst {
    /// Select with the blocklist read at `now_micros`.
    pub fn select_at(
        &self,
        request: &CompletionRequest,
        budget: &BudgetState,
        history: &FailureHistory,
        providers: &[ProviderInfo],
        now_micros: i64,
    ) -> (r: Option<RoutingDecision>)
        ensures
            cheapest_decision(
                candidates(providers@, *request, budget@, history.blocklist(), now_micros as int),
                *request,
                r,
            ),
    {
        let c = eligible_providers(request, budget, history, providers, now_micros);
        if c.len() == 0 {
            return None;
        }
        let mut keys: Vec<i128> = Vec::new();
        let mut i: usize = 0;
        while i < c.len()
            invariant
                i <= c@.len(),
                keys@ == cost_keys(c@, *request).take(i as int),
            decreases c@.len() - i,
        {
            keys.push(estimate_cost(&c[i], request) as i128);
            assert(cost_keys(c@, *request).take(i + 1) =~= cost_keys(c@, *request).take(
                i as int,
            ).push(request_cost(c@[i as int], *request) as i128));
            i = i + 1;
        }
        assert(keys@ =~= cost_keys(c@, *request));
        let order = stable_order(&keys);
        let (provider, fallback_chain) = decide(&c, &order);
        let cost = estimate_cost(&c[order[0]], request);
        proof {
            lemma_pow10_values();
        }
        let shown = fixed_string(false, cost, PICO_PER_USD, 6);
        let rationale = concat3("cheapest available provider at $", shown.as_str(), "/request");
        let d = RoutingDecision { provider, estimated_cost: cost, rationale, fallback_chain };
        assert(stable_ranking(cost_keys(c@, *request), order@));
        Some(d)
    }
}

impl RoutingPolicy for CheapestFirst {
    open spec fn policy_name(&self) -> Seq<char> {
        "cheapest-first"@
    }

    fn name(&self) -> (r: &str) {
        "cheapest-first"
    }

    fn description(&self) -> (r: &str)
        ensures
            r@ == "Always selects the cheapest available provider. No quality awareness."@,
    {
        "Always selects the cheapest available provider. No quality awareness."
    }

    fn select(
        &self,
        request: &CompletionRequest,
        budget: &BudgetState,
        history: &FailureHistory,
        providers: &[ProviderInfo],
    ) -> (r: Option<RoutingDecision>)
        ensures
            exists|now: i64|
                now >= 0 && cheapest_decision(
                    candidates(providers@, *request, budget@, history.blocklist(), now as int),
                    *request,
                    r,
                ),
    {
        let now = now_micros();
        self.select_at(request, budget, history, providers, now)
    }
}

// ─────────────────────────── quality-first ───────────────────────────

/// Quality-first: picks the provider with the highest expected quality.
/// Without an injected score, a provider's quality is its output price per
/// million tokens divided by ten (higher price taken as higher quality).
pub struct QualityFirst {
    /// Quality scores per provider, learned from benchmark runs.
    quality_scores: ScoreTable,
}

/// A provider's quality for quality-first: its injected score, else the price
/// proxy (output USD per million / 10, which over [`QUALITY_SCALE`] is exactly
/// the output price in micro-dollars per million).
pub open spec fn proxied_quality(scores: Map<Seq<char>, u32>, p: ProviderInfo) -> u32 {
    score_or(scores, p.id@, p.price_per_million_output)
}

/// Quality-first ranks candidates by quality, highest first.
pub open spec fn quality_keys(c: Seq<ProviderInfo>, scores: Map<Seq<char>, u32>) -> Seq<i128> {
    c.map_values(|p: ProviderInfo| -(proxied_quality(scores, p) as int) as i128)
}

/// Rationale of a quality-first decision.
pub open spec fn quality_rationale(q: int) -> Seq<char> {
    "highest quality score: "@ + fixed_text(false, q as nat, QUALITY_SCALE as nat, 2)
}

/// The quality-first decision over the candidates `c`.
pub open spec fn quality_decision(
    c: Seq<ProviderInfo>,
    scores: Map<Seq<char>, u32>,
    request: CompletionRequest,
    r: Option<RoutingDecision>,
) -> bool {
    if c.len() == 0 {
        r is None
    } else {
        exists|order: Seq<usize>|
            #![trigger stable_ranking(quality_keys(c, scores), order)]
            stable_ranking(quality_keys(c, scores), order) && match r {
                Some(d) => follows_ranking(c, order, request, d) && d.rationale@ == quality_rationale(
                    proxied_quality(scores, c[order[0] as int]) as int,
                ),
                None => false,
            }
    }
}

impl QualityFirst {
    /// The injected quality scores.
    pub closed spec fn scores(&self) -> Map<Seq<char>, u32> {
        self.quality_scores.view_map()
    }

    /// A quality-first policy with no injected scores.
    pub fn new() -> (p: Self)
        ensures
            p.scores() == Map::<Seq<char>, u32>::empty(),
    {
        QualityFirst { quality_scores: ScoreTable::new() }
    }

    /// Inject an expected quality (fixed point over [`QUALITY_SCALE`]).
    pub fn with_score(self, provider: ProviderId, score: u32) -> (p: Self)
        ensures
            p.scores() == self.scores().insert(provider@, score),
    {
        let mut s = self;
        s.quality_scores.insert(provider, score);
        s
    }

    fn quality_of(&self, p: &ProviderInfo) -> (q: u32)
        ensures
            q == proxied_quality(self.scores(), *p),
    {
        match self.quality_scores.get(&p.id) {
            Some(q) => q,
            None => p.price_per_million_output,
        }
    }

    /// Select with the blocklist read at `now_micros`.
    pub fn select_at(
        &self,
        request: &CompletionRequest,
        budget: &BudgetState,
        history: &FailureHistory,
        providers: &[ProviderInfo],
        now_micros: i64,
    ) -> (r: Option<RoutingDecision>)
        ensures
            quality_decision(
                candidates(providers@, *request, budget@, history.blocklist(), now_micros as int),
                self.scores(),
                *request,
                r,
            ),
    {
        let c = eligible_providers(request, budget, history, providers, now_micros);
        if c.len() == 0 {
            return None;
        }
        let ghost scores = self.scores();
        let mut keys: Vec<i128> = Vec::new();
        let mut i: usize = 0;
        while i < c.len()
            invariant
                i <= c@.len(),
                scores == self.scores(),
                keys@ == quality_keys(c@, scores).take(i as int),
            decreases c@.len() - i,
        {
            let q = self.quality_of(&c[i]);
            keys.push(-(q as i128));
            assert(quality_keys(c@, scores).take(i + 1) =~= quality_keys(c@, scores).take(
                i as int,
            ).push(-(proxied_quality(scores, c@[i as int]) as int) as i128));
            i = i + 1;
        }
        assert(keys@ =~= quality_keys(c@, scores));
        let order = stable_order(&keys);
        let (provider, fallback_chain) = decide(&c, &order);
        let selected = &c[order[0]];
        let cost = estimate_cost(selected, request);
        let q = self.quality_of(selected);
        proof {
            lemma_pow10_values();
        }
        let shown = fixed_string(false, q as u128, QUALITY_SCALE as u128, 2);
        let mut rationale = String::from_str("highest quality score: ");
        rationale.append(shown.as_str());
        let d = RoutingDecision { provider, estimated_cost: cost, rationale, fallback_chain };
        assert(stable_ranking(quality_keys(c@, scores), order@));
        Some(d)
    }
}

impl RoutingPolicy for QualityFirst {
    open spec fn policy_name(&self) -> Seq<char> {
        "quality-first"@
    }

    fn name(&self) -> (r: &str) {
        "quality-first"
    }

    fn description(&self) -> (r: &str)
        ensures
            r@ == "Selects the provider with the highest expected quality score."@,
    {
        "Selects the provider with the highest expected quality score."
    }

    fn select(
        &self,
        request: &CompletionRequest,
        budget: &BudgetState,
        history: &FailureHistory,
        providers: &[ProviderInfo],
    ) -> (r: Option<RoutingDecision>)
        ensures
            exists|now: i64|
                now >= 0 && quality_decision(
                    candidates(providers@, *request, budget@, history.blocklist(), now as int),
                    self.scores(),
                    *request,
                    r,
                ),
    {
        let now = now_micros();
        self.select_at(request, budget, history, providers, now)
    }
}

// ─────────────────────────── budget-aware ───────────────────────────

/// Budget-aware: the flagship policy. Balances cost, quality, and failure history.
/// Predictively estimates cost, refuses if budget insufficient, and routes
/// around providers with recent failures.
pub struct BudgetAware {
    /// Quality scores per provider (fixed point over [`QUALITY_SCALE`]).
    quality_scores: ScoreTable,
    /// Weight for quality, over [`WEIGHT_SCALE`]. Higher = prefer quality over cost.
    quality_weight: u64,
    /// Score penalty per retained failure, over [`WEIGHT_SCALE`].
    failure_penalty: u64,
}

/// Quality assumed for a provider without an injected score: 0.5.
pub const DEFAULT_QUALITY: u32 = 5_000_000;

/// The most expensive estimate over all the providers (0 when none).
pub open spec fn max_request_cost(ps: Seq<ProviderInfo>, r: CompletionRequest) -> int
    decreases ps.len(),
{
    if ps.len() == 0 {
        0
    } else {
        let m = max_request_cost(ps.drop_last(), r);
        let c = request_cost(ps.last(), r);
        if c > m { c } else { m }
    }
}

/// The budget-aware score of a provider, scaled by `aware_denominator(max_cost)`:
///
/// score = quality·w − (cost / max_cost)·(1 − w) − penalty·failures
///
/// where the cost term is dropped when every provider is free (`max_cost == 0`).
/// All of quality, w and penalty are fixed point as in the policy.
pub open spec fn aware_score(q: int, w: int, pen: int, cost: int, max_cost: int, failures: int) -> int {
    let m = if max_cost > 0 { max_cost } else { 1 };
    q * w * m - cost * (WEIGHT_SCALE - w) * QUALITY_SCALE - pen * failures * QUALITY_SCALE * m
}

/// The common denominator of budget-aware scores.
pub open spec fn aware_denominator(max_cost: int) -> int {
    let m = if max_cost > 0 { max_cost } else { 1 };
    QUALITY_SCALE * WEIGHT_SCALE * m
}

/// A candidate's budget-aware score numerator.
pub open spec fn candidate_score(
    scores: Map<Seq<char>, u32>,
    w: int,
    pen: int,
    p: ProviderInfo,
    request: CompletionRequest,
    max_cost: int,
    events: Seq<crate::critique::FailureEvent>,
) -> int {
    aware_score(
        score_or(scores, p.id@, DEFAULT_QUALITY) as int,
        w,
        pen,
        request_cost(p, request),
        max_cost,
        failure_count(events, p.id@) as int,
    )
}

/// Budget-aware ranks candidates by score, highest first.
pub open spec fn aware_keys(
    c: Seq<ProviderInfo>,
    scores: Map<Seq<char>, u32>,
    w: int,
    pen: int,
    request: CompletionRequest,
    max_cost: int,
    events: Seq<crate::critique::FailureEvent>,
) -> Seq<i128> {
    c.map_values(
        |p: ProviderInfo| (-candidate_score(scores, w, pen, p, request, max_cost, events)) as i128,
    )
}

/// Rationale of a budget-aware decision.
pub open spec fn aware_rationale(score: int, den: int, q: int, w: int, cost: int, failures: int) -> Seq<
    char,
> {
    "budget-aware: score="@ + fixed_text(
        score < 0,
        (if score < 0 { -score } else { score }) as nat,
        den as nat,
        3,
    ) + " (quality="@ + fixed_text(false, q as nat, QUALITY_SCALE as nat, 2) + "×"@ + fixed_text(
        false,
        w as nat,
        WEIGHT_SCALE as nat,
        1,
    ) + ", cost="@ + fixed_text(false, cost as nat, PICO_PER_USD as nat, 6) + ", failures="@
        + decimal(failures as nat) + ")"@
}

/// The budget-aware decision over the candidates `c` out of `providers`.
pub open spec fn aware_decision(
    c: Seq<ProviderInfo>,
    providers: Seq<ProviderInfo>,
    scores: Map<Seq<char>, u32>,
    w: int,
    pen: int,
    request: CompletionRequest,
    events: Seq<crate::critique::FailureEvent>,
    r: Option<RoutingDecision>,
) -> bool {
    let m = max_request_cost(providers, request);
    if c.len() == 0 {
        r is None
    } else {
        exists|order: Seq<usize>|
            #![trigger stable_ranking(aware_keys(c, scores, w, pen, request, m, events), order)]
            stable_ranking(aware_keys(c, scores, w, pen, request, m, events), order) && match r {
                Some(d) => {
                    let p = c[order[0] as int];
                    &&& follows_ranking(c, order, request, d)
                    &&& d.rationale@ == aware_rationale(
                        candidate_score(scores, w, pen, p, request, m, events),
                        aware_denominator(m),
                        score_or(scores, p.id@, DEFAULT_QUALITY) as int,
                        w,
                        request_cost(p, request),
                        failure_count(events, p.id@) as int,
                    )
                },
                None => false,
            }
    }
}

/// Bound on any estimate: below 2^65 pico-dollars.
pub const MAX_ESTIMATE: u128 = 0x1_ffff_ffff_ffff_fffe;

fn max_cost_of(providers: &[ProviderInfo], request: &CompletionRequest) -> (m: u128)
    ensures
        m == max_request_cost(providers@, *request),
        m <= MAX_ESTIMATE,
{
    let mut m: u128 = 0;
    let mut i: usize = 0;
    while i < providers.len()
        invariant
            i <= providers@.len(),
            m == max_request_cost(providers@.take(i as int), *request),
            m <= MAX_ESTIMATE,
        decreases providers@.len() - i,
    {
        let c = estimate_cost(&providers[i], request);
        assert(providers@.take(i + 1).drop_last() =~= providers@.take(i as int));
        if c > m {
            m = c;
        }
        i = i + 1;
    }
    assert(providers@.take(i as int) =~= providers@);
    m
}

/// The score numerator, computed without overflow.
fn score_numerator(q: u32, w: u64, pen: u64, cost: u128, max_cost: u128, failures: usize) -> (r: i128)
    requires
        w <= WEIGHT_SCALE,
        pen <= WEIGHT_SCALE,
        cost <= MAX_ESTIMATE,
        max_cost <= MAX_ESTIMATE,
        failures <= MAX_FAILURE_EVENTS,
    ensures
        r == aware_score(q as int, w as int, pen as int, cost as int, max_cost as int, failures as int),
        -4_000_000_000_000_000_000_000_000_000_000_000 <= r <= 2_000_000_000_000_000_000_000_000_000_000_000,
{
    let m: i128 = if max_cost > 0 { max_cost as i128 } else { 1 };
    let qi = q as i128;
    let wi = w as i128;
    let pi = pen as i128;
    let ci = cost as i128;
    let fi = failures as i128;
    let qs = QUALITY_SCALE as i128;
    let ws = WEIGHT_SCALE as i128;
    assert(qi * wi <= 0xffff_ffff * 10_000) by (nonlinear_arith)
        requires
            0 <= qi <= 0xffff_ffff,
            0 <= wi <= 10_000,
    ;
    assert(0 <= qi * wi);
    let a = qi * wi;
    assert(a * m <= 0xffff_ffff * 10_000 * 0x1_ffff_ffff_ffff_fffe) by (nonlinear_arith)
        requires
            0 <= a <= 0xffff_ffff * 10_000,
            1 <= m <= 0x1_ffff_ffff_ffff_fffe,
    ;
    assert(0 <= a * m) by (nonlinear_arith)
        requires
            0 <= a,
            1 <= m,
    ;
    let t1 = a * m;
    assert(0 <= ci * (ws - wi) <= 0x1_ffff_ffff_ffff_fffe * 10_000) by (nonlinear_arith)
        requires
            0 <= ci <= 0x1_ffff_ffff_ffff_fffe,
            0 <= ws - wi <= 10_000,
    ;
    let b = ci * (ws - wi);
    assert(0 <= b * qs <= 0x1_ffff_ffff_ffff_fffe * 10_000 * 10_000_000) by (nonlinear_arith)
        requires
            0 <= b <= 0x1_ffff_ffff_ffff_fffe * 10_000,
            qs == 10_000_000,
    ;
    let t2 = b * qs;
    assert(0 <= pi * fi <= 10_000 * 1000) by (nonlinear_arith)
        requires
            0 <= pi <= 10_000,
            0 <= fi <= 1000,
    ;
    let e = pi * fi;
    assert(0 <= e * qs <= 10_000 * 1000 * 10_000_000) by (nonlinear_arith)
        requires
            0 <= e <= 10_000 * 1000,
            qs == 10_000_000,
    ;
    let g = e * qs;
    assert(0 <= g * m <= 10_000 * 1000 * 10_000_000 * 0x1_ffff_ffff_ffff_fffe) by (nonlinear_arith)
        requires
            0 <= g <= 10_000 * 1000 * 10_000_000,
            1 <= m <= 0x1_ffff_ffff_ffff_fffe,
    ;
    let t3 = g * m;
    assert(t1 == q as int * w as int * m) by (nonlinear_arith)
        requires
            t1 == a * m,
            a == qi * wi,
            qi == q,
            wi == w,
    ;
    assert(t2 == cost as int * (WEIGHT_SCALE - w) * QUALITY_SCALE) by (nonlinear_arith)
        requires
            t2 == b * qs,
            b == ci * (ws - wi),
            ci == cost,
            ws == WEIGHT_SCALE,
            wi == w,
            qs == QUALITY_SCALE,
    ;
    assert(t3 == pen as int * failures as int * QUALITY_SCALE * m) by (nonlinear_arith)
        requires
            t3 == g * m,
            g == e * qs,
            e == pi * fi,
            pi == pen,
            fi == failures,
            qs == QUALITY_SCALE,
    ;
    t1 - t2 - t3
}

impl BudgetAware {
    #[verifier::type_invariant]
    spec fn well_formed(self) -> bool {
        &&& self.quality_weight <= WEIGHT_SCALE
        &&& self.failure_penalty <= WEIGHT_SCALE
    }

    /// The injected quality scores.
    pub closed spec fn scores(&self) -> Map<Seq<char>, u32> {
        self.quality_scores.view_map()
    }

    /// The quality weight, over [`WEIGHT_SCALE`].
    pub closed spec fn weight(&self) -> int {
        self.quality_weight as int
    }

    /// The per-failure penalty, over [`WEIGHT_SCALE`].
    pub closed spec fn penalty(&self) -> int {
        self.failure_penalty as int
    }

    /// Quality weight 0.6, failure penalty 0.3, no injected scores.
    pub fn new() -> (p: Self)
        ensures
            p.scores() == Map::<Seq<char>, u32>::empty(),
            p.weight() == 6_000,
            p.penalty() == 3_000,
    {
        BudgetAware { quality_scores: ScoreTable::new(), quality_weight: 6_000, failure_penalty: 3_000 }
    }

    /// Inject an expected quality (fixed point over [`QUALITY_SCALE`]).
    pub fn with_score(self, provider: ProviderId, score: u32) -> (p: Self)
        ensures
            p.scores() == self.scores().insert(provider@, score),
            p.weight() == self.weight(),
            p.penalty() == self.penalty(),
    {
        proof {
            use_type_invariant(&self);
        }
        let mut t = self.quality_scores;
        t.insert(provider, score);
        BudgetAware { quality_scores: t, quality_weight: self.quality_weight, failure_penalty: self.failure_penalty }
    }

    /// Set the quality weight (over [`WEIGHT_SCALE`]), clamped to at most 1.0.
    pub fn with_quality_weight(self, weight: u64) -> (p: Self)
        ensures
            p.scores() == self.scores(),
            p.weight() == if weight > WEIGHT_SCALE { WEIGHT_SCALE as int } else { weight as int },
            p.penalty() == self.penalty(),
    {
        proof {
            use_type_invariant(&self);
        }
        let w = if weight > WEIGHT_SCALE {
            WEIGHT_SCALE
        } else {
            weight
        };
        BudgetAware {
            quality_scores: self.quality_scores,
            quality_weight: w,
            failure_penalty: self.failure_penalty,
        }
    }

    fn quality_of(&self, p: &ProviderInfo) -> (q: u32)
        ensures
            q == score_or(self.scores(), p.id@, DEFAULT_QUALITY),
    {
        match self.quality_scores.get(&p.id) {
            Some(q) => q,
            None => DEFAULT_QUALITY,
        }
    }

    /// Select with the blocklist read at `now_micros`.
    pub fn select_at(
        &self,
        request: &CompletionRequest,
        budget: &BudgetState,
        history: &FailureHistory,
        providers: &[ProviderInfo],
        now_micros: i64,
    ) -> (r: Option<RoutingDecision>)
        ensures
            aware_decision(
                candidates(providers@, *request, budget@, history.blocklist(), now_micros as int),
                providers@,
                self.scores(),
                self.weight(),
                self.penalty(),
                *request,
                history.events(),
                r,
            ),
            0 <= self.weight() <= WEIGHT_SCALE,
            0 <= self.penalty() <= WEIGHT_SCALE,
            history.events().len() <= MAX_FAILURE_EVENTS,
    {
        proof {
            use_type_invariant(self);
        }
        history.retained_within_limit();
        let max_cost = max_cost_of(providers, request);
        let c = eligible_providers(request, budget, history, providers, now_micros);
        if c.len() == 0 {
            return None;
        }
        let ghost scores = self.scores();
        let ghost events = history.events();
        let ghost m = max_request_cost(providers@, *request);
        let w = self.quality_weight;
        let pen = self.failure_penalty;
        let mut keys: Vec<i128> = Vec::new();
        let mut i: usize = 0;
        while i < c.len()
            invariant
                i <= c@.len(),
                scores == self.scores(),
                events == history.events(),
                m == max_cost,
                w == self.weight(),
                pen == self.penalty(),
                w <= WEIGHT_SCALE,
                pen <= WEIGHT_SCALE,
                max_cost <= MAX_ESTIMATE,
                keys@ == aware_keys(c@, scores, w as int, pen as int, *request, m, events).take(
                    i as int,
                ),
            decreases c@.len() - i,
        {
            let p = &c[i];
            let q = self.quality_of(p);
            let f = history.recent_failure_count(&p.id);
            let n = score_numerator(q, w, pen, estimate_cost(p, request), max_cost, f);
            keys.push(-n);
            assert(aware_keys(c@, scores, w as int, pen as int, *request, m, events).take(i + 1)
                =~= aware_keys(c@, scores, w as int, pen as int, *request, m, events).take(
                i as int,
            ).push((-candidate_score(scores, w as int, pen as int, c@[i as int], *request, m, events)) as i128));
            i = i + 1;
        }
        assert(keys@ =~= aware_keys(c@, scores, w as int, pen as int, *request, m, events));
        let order = stable_order(&keys);
        let (provider, fallback_chain) = decide(&c, &order);
        let selected = &c[order[0]];
        let cost = estimate_cost(selected, request);
        let q = self.quality_of(selected);
        let f = history.recent_failure_count(&selected.id);
        let n = score_numerator(q, w, pen, cost, max_cost, f);
        let mm: u128 = if max_cost > 0 {
            max_cost
        } else {
            1
        };
        assert(mm * 100_000_000_000 <= 0x1_ffff_ffff_ffff_fffe * 100_000_000_000) by (nonlinear_arith)
            requires
                1 <= mm <= 0x1_ffff_ffff_ffff_fffe,
        ;
        let den: u128 = 100_000_000_000u128 * mm;
        let mag: u128 = if n < 0 {
            (-n) as u128
        } else {
            n as u128
        };
        proof {
            lemma_pow10_values();
        }
        let score_text = fixed_string(n < 0, mag, den, 3);
        let q_text = fixed_string(false, q as u128, QUALITY_SCALE as u128, 2);
        let w_text = fixed_string(false, w as u128, WEIGHT_SCALE as u128, 1);
        let cost_text = fixed_string(false, cost, PICO_PER_USD, 6);
        let f_text = decimal_string(f as u128);
        let mut rationale = String::from_str("budget-aware: score=");
        rationale.append(score_text.as_str());
        rationale.append(" (quality=");
        rationale.append(q_text.as_str());
        rationale.append("×");
        rationale.append(w_text.as_str());
        rationale.append(", cost=");
        rationale.append(cost_text.as_str());
        rationale.append(", failures=");
        rationale.append(f_text.as_str());
        rationale.append(")");
        let d = RoutingDecision { provider, estimated_cost: cost, rationale, fallback_chain };
        assert(stable_ranking(aware_keys(c@, scores, w as int, pen as int, *request, m, events), order@));
        Some(d)
    }
}

impl RoutingPolicy for BudgetAware {
    open spec fn policy_name(&self) -> Seq<char> {
        "budget-aware"@
    }

    fn name(&self) -> (r: &str) {
        "budget-aware"
    }

    fn description(&self) -> (r: &str)
        ensures
            r@ == "Balances cost, quality, and failure history. Predictively estimates cost and routes around providers with recent failures."@,
    {
        "Balances cost, quality, and failure history. Predictively estimates cost and routes around providers with recent failures."
    }

    fn select(
        &self,
        request: &CompletionRequest,
        budget: &BudgetState,
        history: &FailureHistory,
        providers: &[ProviderInfo],
    ) -> (r: Option<RoutingDecision>)
        ensures
            exists|now: i64|
                now >= 0 && aware_decision(
                    candidates(providers@, *request, budget@, history.blocklist(), now as int),
                    providers@,
                    self.scores(),
                    self.weight(),
                    self.penalty(),
                    *request,
                    history.events(),
                    r,
                ),
            0 <= self.weight() <= WEIGHT_SCALE,
            0 <= self.penalty() <= WEIGHT_SCALE,
            history.events().len() <= MAX_FAILURE_EVENTS,
    {
        let now = now_micros();
        self.select_at(request, budget, history, providers, now)
    }
}


// ─────────────────────────── registry ───────────────────────────

/// A policy held by a [`PolicyRegistry`]: one of the built-in policies, or
/// one supplied by the caller.
pub enum RegisteredPolicy {
    Cheapest(CheapestFirst),
    Quality(QualityFirst),
    Aware(BudgetAware),
    /// A policy given to [`PolicyRegistry::register`].
    Custom(Box<dyn RoutingPolicy>),
}

impl RoutingPolicy for RegisteredPolicy {
    open spec fn policy_name(&self) -> Seq<char> {
        match self {
            RegisteredPolicy::Cheapest(p) => p.policy_name(),
            RegisteredPolicy::Quality(p) => p.policy_name(),
            RegisteredPolicy::Aware(p) => p.policy_name(),
            RegisteredPolicy::Custom(p) => p.policy_name(),
        }
    }

    fn name(&self) -> (r: &str) {
        match self {
            RegisteredPolicy::Cheapest(p) => p.name(),
            RegisteredPolicy::Quality(p) => p.name(),
            RegisteredPolicy::Aware(p) => p.name(),
            RegisteredPolicy::Custom(p) => p.name(),
        }
    }

    fn description(&self) -> (r: &str)
        ensures
            match self {
                RegisteredPolicy::Cheapest(_) => r@
                    == "Always selects the cheapest available provider. No quality awareness."@,
                RegisteredPolicy::Quality(_) => r@
                    == "Selects the provider with the highest expected quality score."@,
                RegisteredPolicy::Aware(_) => r@
                    == "Balances cost, quality, and failure history. Predictively estimates cost and routes around providers with recent failures."@,
                RegisteredPolicy::Custom(_) => true,
            },
    {
        match self {
            RegisteredPolicy::Cheapest(p) => p.description(),
            RegisteredPolicy::Quality(p) => p.description(),
            RegisteredPolicy::Aware(p) => p.description(),
            RegisteredPolicy::Custom(p) => p.description(),
        }
    }

    fn select(
        &self,
        request: &CompletionRequest,
        budget: &BudgetState,
        history: &FailureHistory,
        providers: &[ProviderInfo],
    ) -> (r: Option<RoutingDecision>)
        ensures
            match self {
                RegisteredPolicy::Cheapest(_) => exists|now: i64|
                    now >= 0 && cheapest_decision(
                        candidates(providers@, *request, budget@, history.blocklist(), now as int),
                        *request,
                        r,
                    ),
                RegisteredPolicy::Quality(p) => exists|now: i64|
                    now >= 0 && quality_decision(
                        candidates(providers@, *request, budget@, history.blocklist(), now as int),
                        p.scores(),
                        *request,
                        r,
                    ),
                RegisteredPolicy::Aware(p) => exists|now: i64|
                    now >= 0 && aware_decision(
                        candidates(providers@, *request, budget@, history.blocklist(), now as int),
                        providers@,
                        p.scores(),
                        p.weight(),
                        p.penalty(),
                        *request,
                        history.events(),
                        r,
                    ),
                RegisteredPolicy::Custom(_) => true,
            },
    {
        match self {
            RegisteredPolicy::Cheapest(p) => p.select(request, budget, history, providers),
            RegisteredPolicy::Quality(p) => p.select(request, budget, history, providers),
            RegisteredPolicy::Aware(p) => p.select(request, budget, history, providers),
            RegisteredPolicy::Custom(p) => p.select(request, budget, history, providers),
        }
    }
}

/// Registry of available routing policies, in registration order.
pub struct PolicyRegistry {
    policies: Vec<RegisteredPolicy>,
}

impl PolicyRegistry {
    /// The registered policies, in registration order.
    pub closed spec fn policies(&self) -> Seq<RegisteredPolicy> {
        self.policies@
    }

    /// The names of the registered policies, in registration order.
    pub open spec fn names(&self) -> Seq<Seq<char>> {
        Seq::new(self.policies().len(), |i: int| self.policies()[i].policy_name())
    }

    /// An empty registry.
    pub fn new() -> (r: Self)
        ensures
            r.policies() == Seq::<RegisteredPolicy>::empty(),
    {
        PolicyRegistry { policies: Vec::new() }
    }

    /// Add a policy at the end.
    pub fn register(&mut self, policy: Box<dyn RoutingPolicy>)
        ensures
            final(self).policies() == old(self).policies().push(RegisteredPolicy::Custom(policy)),
    {
        self.policies.push(RegisteredPolicy::Custom(policy));
    }

    /// The first registered policy with the given name.
    pub fn get(&self, name: &str) -> (r: Option<&RegisteredPolicy>)
        ensures
            match r {
                Some(p) => exists|i: int|
                    0 <= i < self.names().len() && self.names()[i] == name@ && *p
                        == self.policies()[i] && (forall|j: int|
                        0 <= j < i ==> self.names()[j] != name@),
                None => !self.names().contains(name@),
            },
    {
        let mut i: usize = 0;
        while i < self.policies.len()
            invariant
                i <= self.policies@.len(),
                forall|j: int| 0 <= j < i ==> self.names()[j] != name@,
            decreases self.policies@.len() - i,
        {
            let p: &RegisteredPolicy = &self.policies[i];
            if str_eq(p.name(), name) {
                assert(self.names()[i as int] == name@);
                return Some(p);
            }
            i = i + 1;
        }
        proof {
            if self.names().contains(name@) {
                let k = choose|k: int| 0 <= k < self.names().len() && self.names()[k] == name@;
                assert(self.names()[k] != name@);
            }
        }
        None
    }

    /// The (name, description) of every registered policy, in registration order.
    pub fn list(&self) -> (r: Vec<(&str, &str)>)
        ensures
            r@.map_values(|e: (&str, &str)| e.0@) == self.names(),
    {
        let mut out: Vec<(&str, &str)> = Vec::new();
        let mut i: usize = 0;
        while i < self.policies.len()
            invariant
                i <= self.policies@.len(),
                out@.map_values(|e: (&str, &str)| e.0@) == self.names().take(i as int),
            decreases self.policies@.len() - i,
        {
            let p: &RegisteredPolicy = &self.policies[i];
            out.push((p.name(), p.description()));
            assert(self.names().take(i + 1) =~= self.names().take(i as int).push(self.names()[i as int]));
            assert(out@.map_values(|e: (&str, &str)| e.0@) =~= self.names().take(i + 1));
            i = i + 1;
        }
        assert(self.names().take(i as int) =~= self.names());
        out
    }

    /// A registry with all built-in policies: cheapest-first, quality-first
    /// and budget-aware, in that order, each with its default settings.
    pub fn with_defaults() -> (r: Self)
        ensures
            r.names() == seq!["cheapest-first"@, "quality-first"@, "budget-aware"@],
            r.policies().len() == 3,
            r.policies()[0] is Cheapest,
            r.policies()[1] matches RegisteredPolicy::Quality(q) && q.scores() == Map::<
                Seq<char>,
                u32,
            >::empty(),
            r.policies()[2] matches RegisteredPolicy::Aware(b) && b.scores() == Map::<
                Seq<char>,
                u32,
            >::empty() && b.weight() == 6_000 && b.penalty() == 3_000,
    {
        let mut policies: Vec<RegisteredPolicy> = Vec::new();
        policies.push(RegisteredPolicy::Cheapest(CheapestFirst));
        policies.push(RegisteredPolicy::Quality(QualityFirst::new()));
        policies.push(RegisteredPolicy::Aware(BudgetAware::new()));
        let registry = PolicyRegistry { policies };
        assert(registry.names() =~= seq!["cheapest-first"@, "quality-first"@, "budget-aware"@]);
        registry
    }
}

// ─────────────────────────── policy lists ───────────────────────────

/// The pieces of `s` between commas (`str::split(',')`): one more piece than
/// there are commas, empty pieces included.
pub open spec fn split_commas(s: Seq<char>) -> Seq<Seq<char>>
    decreases s.len(),
{
    if s.len() == 0 {
        seq![Seq::<char>::empty()]
    } else {
        let r = split_commas(s.drop_last());
        if s.last() == ',' {
            r.push(Seq::<char>::empty())
        } else {
            r.update(r.len() - 1, r.last().push(s.last()))
        }
    }
}

/// The policy names of a comma-separated list: each piece between commas,
/// without surrounding white space.
pub open spec fn policy_list(s: Seq<char>) -> Seq<Seq<char>> {
    split_commas(s).map_values(|p: Seq<char>| trim_ws(p))
}

/// Parse a comma-separated list of policy names, as the benchmark command
/// takes it: split at each comma and trim each name.
pub fn parse_policy_list(list: &str) -> (names: Vec<String>)
    ensures
        names@.map_values(|n: String| n@) == policy_list(list@),
{
    let v = chars_of(list);
    let ghost f = |n: String| n@;
    let ghost t = |p: Seq<char>| trim_ws(p);
    let mut names: Vec<String> = Vec::new();
    let mut cur: Vec<char> = Vec::new();
    let mut i: usize = 0;
    proof {
        assert(v@.take(0) =~= Seq::<char>::empty());
    }
    while i < v.len()
        invariant
            i <= v@.len(),
            f == (|n: String| n@),
            t == (|p: Seq<char>| trim_ws(p)),
            split_commas(v@.take(i as int)).len() == names@.len() + 1,
            names@.map_values(f) == split_commas(v@.take(i as int)).drop_last().map_values(t),
            cur@ == split_commas(v@.take(i as int)).last(),
        decreases v@.len() - i,
    {
        let ghost before = split_commas(v@.take(i as int));
        assert(v@.take(i + 1).drop_last() =~= v@.take(i as int));
        assert(v@.take(i + 1).last() == v@[i as int]);
        if v[i] == ',' {
            let name = trimmed(&cur);
            names.push(name);
            cur = Vec::new();
            proof {
                let after = split_commas(v@.take(i + 1));
                assert(after == before.push(Seq::<char>::empty()));
                assert(after.drop_last() =~= before);
                assert(before =~= before.drop_last().push(before.last()));
                assert(names@.map_values(f) =~= before.drop_last().map_values(t).push(
                    trim_ws(before.last()),
                ));
                assert(before.map_values(t) =~= before.drop_last().map_values(t).push(
                    trim_ws(before.last()),
                ));
            }
        } else {
            cur.push(v[i]);
            proof {
                let after = split_commas(v@.take(i + 1));
                assert(after == before.update(before.len() - 1, before.last().push(v@[i as int])));
                assert(after.drop_last() =~= before.drop_last());
            }
        }
        i = i + 1;
    }
    let ghost before = names@;
    let last = trimmed(&cur);
    names.push(last);
    proof {
        assert(v@.take(i as int) =~= list@);
        let all = split_commas(list@);
        assert(all =~= all.drop_last().push(all.last()));
        assert(names@ =~= before.push(last));
        assert(names@.map_values(f) =~= before.map_values(f).push(last@));
        assert(all.map_values(t) =~= all.drop_last().map_values(t).push(trim_ws(all.last())));
        assert(names@.map_values(f) =~= all.map_values(t));
    }
    names
}

// ───────────────────────────── laws ─────────────────────────────

/// Cheapest-first selects exactly when some provider is eligible, and then
/// routes among the eligible providers: a blocklisted or unaffordable provider
/// is never selected.
pub proof fn law_cheapest_first_routes_among_eligible(
    ps: Seq<ProviderInfo>,
    request: CompletionRequest,
    budget: BudgetLedger,
    blocklist: Map<Seq<char>, int>,
    now: int,
    r: Option<RoutingDecision>,
)
    requires
        cheapest_decision(candidates(ps, request, budget, blocklist, now), request, r),
    ensures
        r is Some <==> candidates(ps, request, budget, blocklist, now).len() > 0,
        r matches Some(d) ==> routes_among(ps, request, budget, blocklist, now, d),
{
    let c = candidates(ps, request, budget, blocklist, now);
    if c.len() > 0 {
        let order = choose|order: Seq<usize>|
            stable_ranking(cost_keys(c, request), order) && match r {
                Some(d) => follows_ranking(c, order, request, d) && d.rationale@
                    == cheapest_rationale(d.estimated_cost as int),
                None => false,
            };
        lemma_ranked_decision_routes(ps, request, budget, blocklist, now, cost_keys(c, request), order, r->0);
    }
}

/// Quality-first selects exactly when some provider is eligible, and then
/// routes among the eligible providers: a blocklisted or unaffordable provider
/// is never selected.
pub proof fn law_quality_first_routes_among_eligible(
    ps: Seq<ProviderInfo>,
    scores: Map<Seq<char>, u32>,
    request: CompletionRequest,
    budget: BudgetLedger,
    blocklist: Map<Seq<char>, int>,
    now: int,
    r: Option<RoutingDecision>,
)
    requires
        quality_decision(candidates(ps, request, budget, blocklist, now), scores, request, r),
    ensures
        r is Some <==> candidates(ps, request, budget, blocklist, now).len() > 0,
        r matches Some(d) ==> routes_among(ps, request, budget, blocklist, now, d),
{
    let c = candidates(ps, request, budget, blocklist, now);
    if c.len() > 0 {
        let order = choose|order: Seq<usize>|
            stable_ranking(quality_keys(c, scores), order) && match r {
                Some(d) => follows_ranking(c, order, request, d) && d.rationale@ == quality_rationale(
                    proxied_quality(scores, c[order[0] as int]) as int,
                ),
                None => false,
            };
        lemma_ranked_decision_routes(ps, request, budget, blocklist, now, quality_keys(c, scores), order, r->0);
    }
}

/// Budget-aware selects exactly when some provider is eligible, and then
/// routes among the eligible providers: a blocklisted or unaffordable provider
/// is never selected.
pub proof fn law_budget_aware_routes_among_eligible(
    ps: Seq<ProviderInfo>,
    scores: Map<Seq<char>, u32>,
    w: int,
    pen: int,
    request: CompletionRequest,
    budget: BudgetLedger,
    blocklist: Map<Seq<char>, int>,
    events: Seq<crate::critique::FailureEvent>,
    now: int,
    r: Option<RoutingDecision>,
)
    requires
        aware_decision(
            candidates(ps, request, budget, blocklist, now),
            ps,
            scores,
            w,
            pen,
            request,
            events,
            r,
        ),
    ensures
        r is Some <==> candidates(ps, request, budget, blocklist, now).len() > 0,
        r matches Some(d) ==> routes_among(ps, request, budget, blocklist, now, d),
{
    let c = candidates(ps, request, budget, blocklist, now);
    let m = max_request_cost(ps, request);
    if c.len() > 0 {
        let keys = aware_keys(c, scores, w, pen, request, m, events);
        let order = choose|order: Seq<usize>|
            stable_ranking(aware_keys(c, scores, w, pen, request, m, events), order) && match r {
                Some(d) => {
                    let p = c[order[0] as int];
                    &&& follows_ranking(c, order, request, d)
                    &&& d.rationale@ == aware_rationale(
                        candidate_score(scores, w, pen, p, request, m, events),
                        aware_denominator(m),
                        score_or(scores, p.id@, DEFAULT_QUALITY) as int,
                        w,
                        request_cost(p, request),
                        failure_count(events, p.id@) as int,
                    )
                },
                None => false,
            };
        lemma_ranked_decision_routes(ps, request, budget, blocklist, now, keys, order, r->0);
    }
}

proof fn lemma_request_cost_bound(p: ProviderInfo, r: CompletionRequest)
    ensures
        0 <= request_cost(p, r) <= MAX_ESTIMATE,
{
    let t = input_token_estimate(r);
    assert(0 <= t <= u32::MAX);
    let a = t * p.price_per_million_input;
    let b = r.max_tokens as int * p.price_per_million_output;
    assert(0 <= a <= 0xffff_ffff * 0xffff_ffff) by (nonlinear_arith)
        requires
            a == t * p.price_per_million_input,
            0 <= t <= 0xffff_ffff,
            0 <= p.price_per_million_input <= 0xffff_ffff,
    ;
    assert(0 <= b <= 0xffff_ffff * 0xffff_ffff) by (nonlinear_arith)
        requires
            b == r.max_tokens as int * p.price_per_million_output,
            0 <= r.max_tokens <= 0xffff_ffff,
            0 <= p.price_per_million_output <= 0xffff_ffff,
    ;
}

proof fn lemma_max_request_cost_bound(ps: Seq<ProviderInfo>, r: CompletionRequest)
    ensures
        0 <= max_request_cost(ps, r) <= MAX_ESTIMATE,
    decreases ps.len(),
{
    if ps.len() > 0 {
        lemma_max_request_cost_bound(ps.drop_last(), r);
        lemma_request_cost_bound(ps.last(), r);
    }
}

/// Budget-aware scoring normalizes cost by the most expensive estimate of the
/// whole provider set: no provider's estimate exceeds the normalizer, and for
/// a non-empty set some provider's estimate equals it (0 for an empty set).
pub proof fn law_cost_normalizer_is_the_greatest_estimate(ps: Seq<ProviderInfo>, r: CompletionRequest)
    ensures
        forall|i: int| 0 <= i < ps.len() ==> request_cost(#[trigger] ps[i], r) <= max_request_cost(ps, r),
        ps.len() > 0 ==> exists|j: int|
            0 <= j < ps.len() && request_cost(#[trigger] ps[j], r) == max_request_cost(ps, r),
        ps.len() == 0 ==> max_request_cost(ps, r) == 0,
    decreases ps.len(),
{
    if ps.len() > 0 {
        let s = ps.drop_last();
        law_cost_normalizer_is_the_greatest_estimate(s, r);
        assert forall|i: int| 0 <= i < ps.len() implies request_cost(#[trigger] ps[i], r)
            <= max_request_cost(ps, r) by {
            if i < ps.len() - 1 {
                assert(ps[i] == s[i]);
            }
        }
        if request_cost(ps.last(), r) > max_request_cost(s, r) || s.len() == 0 {
            assert(request_cost(ps[ps.len() - 1], r) == max_request_cost(ps, r));
        } else {
            let j = choose|j: int| 0 <= j < s.len() && request_cost(#[trigger] s[j], r) == max_request_cost(s, r);
            assert(ps[j] == s[j]);
        }
    }
}

proof fn lemma_aware_score_range(q: int, w: int, pen: int, cost: int, m: int, f: int)
    requires
        0 <= q <= u32::MAX,
        0 <= w <= WEIGHT_SCALE,
        0 <= pen <= WEIGHT_SCALE,
        0 <= cost <= MAX_ESTIMATE,
        0 <= m <= MAX_ESTIMATE,
        0 <= f <= MAX_FAILURE_EVENTS,
    ensures
        -4_000_000_000_000_000_000_000_000_000_000_000 <= aware_score(q, w, pen, cost, m, f)
            <= 2_000_000_000_000_000_000_000_000_000_000_000,
{
    let mm = if m > 0 { m } else { 1 };
    assert(0 <= q * w * mm <= 0xffff_ffff * 10_000 * 0x1_ffff_ffff_ffff_fffe) by (nonlinear_arith)
        requires
            0 <= q <= 0xffff_ffff,
            0 <= w <= 10_000,
            1 <= mm <= 0x1_ffff_ffff_ffff_fffe,
    ;
    assert(0 <= cost * (WEIGHT_SCALE - w) * QUALITY_SCALE <= 0x1_ffff_ffff_ffff_fffe * 10_000
        * 10_000_000) by (nonlinear_arith)
        requires
            0 <= cost <= 0x1_ffff_ffff_ffff_fffe,
            0 <= WEIGHT_SCALE - w <= 10_000,
            QUALITY_SCALE == 10_000_000,
    ;
    assert(0 <= pen * f * QUALITY_SCALE * mm <= 10_000 * 1000 * 10_000_000
        * 0x1_ffff_ffff_ffff_fffe) by (nonlinear_arith)
        requires
            0 <= pen <= 10_000,
            0 <= f <= 1000,
            QUALITY_SCALE == 10_000_000,
            1 <= mm <= 0x1_ffff_ffff_ffff_fffe,
    ;
}

/// Cheapest-first selects a cheapest candidate: no candidate costs less than
/// the selected provider's estimate, and on a tie the earliest is selected.
pub proof fn law_cheapest_first_selects_cheapest(
    ps: Seq<ProviderInfo>,
    request: CompletionRequest,
    budget: BudgetLedger,
    blocklist: Map<Seq<char>, int>,
    now: int,
    d: RoutingDecision,
)
    requires
        cheapest_decision(candidates(ps, request, budget, blocklist, now), request, Some(d)),
    ensures
        forall|i: int|
            0 <= i < candidates(ps, request, budget, blocklist, now).len() ==> d.estimated_cost
                <= #[trigger] request_cost(candidates(ps, request, budget, blocklist, now)[i], request),
{
    let c = candidates(ps, request, budget, blocklist, now);
    let r = Some(d);
    let keys = cost_keys(c, request);
    let order = choose|order: Seq<usize>|
        stable_ranking(cost_keys(c, request), order) && match r {
            Some(d) => follows_ranking(c, order, request, d) && d.rationale@ == cheapest_rationale(
                d.estimated_cost as int,
            ),
            None => false,
        };
    law_first_ranked_is_least(keys, order);
    let k = order[0] as int;
    lemma_request_cost_bound(c[k], request);
    assert forall|i: int| 0 <= i < c.len() implies d.estimated_cost <= #[trigger] request_cost(
        c[i],
        request,
    ) by {
        lemma_request_cost_bound(c[i], request);
        assert(keys[i] == request_cost(c[i], request) as i128);
        assert(keys[k] <= keys[i]);
    }
}

/// Quality-first selects a candidate of highest quality (injected score, else
/// the price proxy): no candidate's quality is above the selected one's.
pub proof fn law_quality_first_selects_best_quality(
    ps: Seq<ProviderInfo>,
    scores: Map<Seq<char>, u32>,
    request: CompletionRequest,
    budget: BudgetLedger,
    blocklist: Map<Seq<char>, int>,
    now: int,
    d: RoutingDecision,
)
    requires
        quality_decision(candidates(ps, request, budget, blocklist, now), scores, request, Some(d)),
    ensures
        exists|k: int|
            0 <= k < candidates(ps, request, budget, blocklist, now).len() && (#[trigger] candidates(
                ps,
                request,
                budget,
                blocklist,
                now,
            )[k]).id == d.provider && forall|i: int|
                0 <= i < candidates(ps, request, budget, blocklist, now).len() ==> proxied_quality(
                    scores,
                    #[trigger] candidates(ps, request, budget, blocklist, now)[i],
                ) <= proxied_quality(scores, candidates(ps, request, budget, blocklist, now)[k]),
{
    let c = candidates(ps, request, budget, blocklist, now);
    let r = Some(d);
    let keys = quality_keys(c, scores);
    let order = choose|order: Seq<usize>|
        stable_ranking(quality_keys(c, scores), order) && match r {
            Some(d) => follows_ranking(c, order, request, d) && d.rationale@ == quality_rationale(
                proxied_quality(scores, c[order[0] as int]) as int,
            ),
            None => false,
        };
    law_first_ranked_is_least(keys, order);
    let k = order[0] as int;
    assert forall|i: int| 0 <= i < c.len() implies proxied_quality(scores, #[trigger] c[i])
        <= proxied_quality(scores, c[k]) by {
        assert(keys[k] <= keys[i]);
    }
    assert(c[k].id == d.provider);
}

/// Budget-aware selects a candidate of best score: no candidate scores above
/// the selected one (on a tie the earliest is selected). Together with
/// [`law_aware_score_monotone`]: of two candidates alike but for quality, for
/// cost, or for recent failures, the worse one is not selected. The bounds on
/// the weight, the penalty and the number of events hold of every
/// [`BudgetAware`] and [`FailureHistory`]: [`BudgetAware::select_at`] states
/// them beside its decision.
pub proof fn law_budget_aware_selects_best_score(
    ps: Seq<ProviderInfo>,
    scores: Map<Seq<char>, u32>,
    w: int,
    pen: int,
    request: CompletionRequest,
    budget: BudgetLedger,
    blocklist: Map<Seq<char>, int>,
    events: Seq<crate::critique::FailureEvent>,
    now: int,
    d: RoutingDecision,
)
    requires
        aware_decision(
            candidates(ps, request, budget, blocklist, now),
            ps,
            scores,
            w,
            pen,
            request,
            events,
            Some(d),
        ),
        0 <= w <= WEIGHT_SCALE,
        0 <= pen <= WEIGHT_SCALE,
        events.len() <= MAX_FAILURE_EVENTS,
    ensures
        exists|k: int|
            0 <= k < candidates(ps, request, budget, blocklist, now).len() && (#[trigger] candidates(
                ps,
                request,
                budget,
                blocklist,
                now,
            )[k]).id == d.provider && request_cost(
                candidates(ps, request, budget, blocklist, now)[k],
                request,
            ) == d.estimated_cost && forall|i: int|
                0 <= i < candidates(ps, request, budget, blocklist, now).len() ==> candidate_score(
                    scores,
                    w,
                    pen,
                    #[trigger] candidates(ps, request, budget, blocklist, now)[i],
                    request,
                    max_request_cost(ps, request),
                    events,
                ) <= candidate_score(
                    scores,
                    w,
                    pen,
                    candidates(ps, request, budget, blocklist, now)[k],
                    request,
                    max_request_cost(ps, request),
                    events,
                ),
{
    let c = candidates(ps, request, budget, blocklist, now);
    let m = max_request_cost(ps, request);
    let r = Some(d);
    let keys = aware_keys(c, scores, w, pen, request, m, events);
    let order = choose|order: Seq<usize>|
        stable_ranking(aware_keys(c, scores, w, pen, request, m, events), order) && match r {
            Some(d) => {
                let p = c[order[0] as int];
                &&& follows_ranking(c, order, request, d)
                &&& d.rationale@ == aware_rationale(
                    candidate_score(scores, w, pen, p, request, m, events),
                    aware_denominator(m),
                    score_or(scores, p.id@, DEFAULT_QUALITY) as int,
                    w,
                    request_cost(p, request),
                    failure_count(events, p.id@) as int,
                )
            },
            None => false,
        };
    law_first_ranked_is_least(keys, order);
    lemma_max_request_cost_bound(ps, request);
    let k = order[0] as int;
    assert forall|i: int| 0 <= i < c.len() implies #[trigger] candidate_score(
        scores,
        w,
        pen,
        c[i],
        request,
        m,
        events,
    ) <= candidate_score(scores, w, pen, c[k], request, m, events)
        && -4_000_000_000_000_000_000_000_000_000_000_000 <= candidate_score(
        scores,
        w,
        pen,
        c[i],
        request,
        m,
        events,
    ) <= 2_000_000_000_000_000_000_000_000_000_000_000 by {
        lemma_request_cost_bound(c[i], request);
        lemma_request_cost_bound(c[k], request);
        events.lemma_filter_len(crate::critique::of_provider(c[i].id@));
        events.lemma_filter_len(crate::critique::of_provider(c[k].id@));
        lemma_aware_score_range(
            score_or(scores, c[i].id@, DEFAULT_QUALITY) as int,
            w,
            pen,
            request_cost(c[i], request),
            m,
            failure_count(events, c[i].id@) as int,
        );
        lemma_aware_score_range(
            score_or(scores, c[k].id@, DEFAULT_QUALITY) as int,
            w,
            pen,
            request_cost(c[k], request),
            m,
            failure_count(events, c[k].id@) as int,
        );
        assert(keys[k] <= keys[i]);
    }
    assert(c[k].id == d.provider);
}

/// Budget-aware scoring prefers, other things equal: higher quality when
/// quality has weight; lower cost when cost has weight; fewer recent failures
/// when failures are penalized.
pub proof fn law_aware_score_monotone(
    q1: int,
    q2: int,
    w: int,
    pen: int,
    c1: int,
    c2: int,
    m: int,
    f1: int,
    f2: int,
)
    requires
        0 <= w <= WEIGHT_SCALE,
    ensures
        w > 0 && q1 > q2 ==> aware_score(q1, w, pen, c1, m, f1) > aware_score(q2, w, pen, c1, m, f1),
        w < WEIGHT_SCALE && c1 < c2 ==> aware_score(q1, w, pen, c1, m, f1) > aware_score(
            q1,
            w,
            pen,
            c2,
            m,
            f1,
        ),
        pen > 0 && f1 < f2 ==> aware_score(q1, w, pen, c1, m, f1) > aware_score(
            q1,
            w,
            pen,
            c1,
            m,
            f2,
        ),
{
    let mm = if m > 0 { m } else { 1 };
    assert(w > 0 && q1 > q2 ==> q1 * w * mm > q2 * w * mm) by (nonlinear_arith)
        requires
            mm >= 1,
    ;
    assert(w < WEIGHT_SCALE && c1 < c2 ==> c1 * (WEIGHT_SCALE - w) * QUALITY_SCALE < c2 * (
    WEIGHT_SCALE - w) * QUALITY_SCALE) by (nonlinear_arith)
        requires
            QUALITY_SCALE > 0,
    ;
    assert(pen > 0 && f1 < f2 ==> pen * f1 * QUALITY_SCALE * mm < pen * f2 * QUALITY_SCALE * mm)
        by (nonlinear_arith)
        requires
            mm >= 1,
            QUALITY_SCALE > 0,
    ;
}

} // verus!
