//! Failure critique: classify a failure, remember it, blocklist the provider for
//! a while when the failure class calls for it, and recommend where to retry.
use vstd::prelude::*;
use crate::adapter::{ProviderId, ProviderInfo};
use crate::clock::now_micros;
use crate::errors::GcError;

verus! {

/// Classification of a failure — determines how the retry is routed.
#[derive(Debug, Clone, Copy, PartialEq, Eq, Hash, Structural)]
pub enum FailureClass {
    /// Request took too long. Retry with a faster provider or shorter prompt.
    Timeout,
    /// Provider rate-limited. Retry with a different provider, or back off.
    RateLimit,
    /// Content policy violation. Retry with a provider that has different policy.
    ContentPolicy,
    /// Provider returned malformed/unparseable output. Retry with a more reliable provider.
    MalformedOutput,
    /// Output was syntactically valid but quality was below threshold.
    QualityDegradation,
    /// Generic provider error (5xx, network, etc).
    ProviderError { status_code: u16 },
}

/// Where a retry should go.
#[derive(Debug, Clone, Copy, PartialEq, Eq, Structural)]
pub enum RetryStrategy {
    /// Prefer a provider with lower avg latency
    PreferFaster,
    /// Prefer any provider that isn't the one that just failed
    PreferAlternative,
    /// Prefer a provider with stricter output formatting / structured output support
    PreferMoreReliable,
    /// Prefer a provider with higher quality score
    PreferHigherQuality,
}

/// The retry strategy of each failure class.
pub open spec fn strategy_of(c: FailureClass) -> RetryStrategy {
    match c {
        FailureClass::Timeout => RetryStrategy::PreferFaster,
        FailureClass::RateLimit => RetryStrategy::PreferAlternative,
        FailureClass::ContentPolicy => RetryStrategy::PreferAlternative,
        FailureClass::MalformedOutput => RetryStrategy::PreferMoreReliable,
        FailureClass::QualityDegradation => RetryStrategy::PreferHigherQuality,
        FailureClass::ProviderError { .. } => RetryStrategy::PreferAlternative,
    }
}

/// How long (seconds) each failure class blocklists the provider; 0 means not at all.
pub open spec fn block_seconds(c: FailureClass) -> int {
    match c {
        FailureClass::Timeout => 30,
        FailureClass::RateLimit => 60,
        FailureClass::ContentPolicy => 0,
        FailureClass::MalformedOutput => 0,
        FailureClass::QualityDegradation => 0,
        FailureClass::ProviderError { status_code } => if status_code >= 500 { 120 } else { 0 },
    }
}

impl FailureClass {
    /// Returns the recommended retry strategy for this failure class.
    pub fn retry_strategy(&self) -> (r: RetryStrategy)
        ensures
            r == strategy_of(*self),
    {
        match self {
            FailureClass::Timeout => RetryStrategy::PreferFaster,
            FailureClass::RateLimit => RetryStrategy::PreferAlternative,
            FailureClass::ContentPolicy => RetryStrategy::PreferAlternative,
            FailureClass::MalformedOutput => RetryStrategy::PreferMoreReliable,
            FailureClass::QualityDegradation => RetryStrategy::PreferHigherQuality,
            FailureClass::ProviderError { .. } => RetryStrategy::PreferAlternative,
        }
    }

    /// How long this failure class blocklists the provider, in seconds (0: not at all).
    pub fn blocklist_duration_s(&self) -> (r: u64)
        ensures
            r == block_seconds(*self),
    {
        match self {
            FailureClass::Timeout => 30,
            FailureClass::RateLimit => 60,
            FailureClass::ContentPolicy => 0,
            FailureClass::MalformedOutput => 0,
            FailureClass::QualityDegradation => 0,
            FailureClass::ProviderError { status_code } => {
                if *status_code >= 500 {
                    120
                } else {
                    0
                }
            },
        }
    }
}

/// A recorded failure event.
#[derive(Debug)]
pub struct FailureEvent {
    pub provider: ProviderId,
    pub class: FailureClass,
    /// When the failure was recorded, in microseconds since the Unix epoch.
    pub timestamp: i64,
    pub request_prompt_hash: String,
}

impl Clone for FailureEvent {
    fn clone(&self) -> (r: Self)
        ensures
            r == *self,
    {
        FailureEvent {
            provider: self.provider.clone(),
            class: self.class,
            timestamp: self.timestamp,
            request_prompt_hash: self.request_prompt_hash.clone(),
        }
    }
}

/// How many failure events a history retains (oldest dropped first).
pub const MAX_FAILURE_EVENTS: usize = 1000;

/// Microseconds per second.
pub const MICROS_PER_SECOND: i128 = 1_000_000;

/// Events of one provider.
pub open spec fn of_provider(p: Seq<char>) -> spec_fn(FailureEvent) -> bool {
    |e: FailureEvent| e.provider@ == p
}

/// Number of retained failures of provider `p`.
pub open spec fn failure_count(events: Seq<FailureEvent>, p: Seq<char>) -> nat {
    events.filter(of_provider(p)).len()
}

/// Class of the most recent retained failure of provider `p`.
pub open spec fn last_class(events: Seq<FailureEvent>, p: Seq<char>) -> Option<FailureClass>
    decreases events.len(),
{
    if events.len() == 0 {
        None
    } else if events.last().provider@ == p {
        Some(events.last().class)
    } else {
        last_class(events.drop_last(), p)
    }
}

/// The newest `max` events of `s`.
pub open spec fn keep_newest(s: Seq<FailureEvent>, max: int) -> Seq<FailureEvent> {
    if s.len() > max {
        s.subrange(s.len() - max, s.len() as int)
    } else {
        s
    }
}

/// Whether provider `p` is blocklisted at time `now` (microseconds).
pub open spec fn blocked_at(bl: Map<Seq<char>, int>, p: Seq<char>, now: int) -> bool {
    bl.contains_key(p) && now < bl[p]
}

/// The blocklist after a failure of class `c` of provider `p` at time `now`:
/// the provider is blocked until `now` plus the class's duration, if any.
pub open spec fn after_failure(
    bl: Map<Seq<char>, int>,
    p: Seq<char>,
    c: FailureClass,
    now: int,
) -> Map<Seq<char>, int> {
    if block_seconds(c) > 0 {
        bl.insert(p, now + block_seconds(c) * MICROS_PER_SECOND as int)
    } else {
        bl
    }
}

/// The blocklist without the entries that have expired at `now`.
pub open spec fn unexpired(bl: Map<Seq<char>, int>, now: int) -> Map<Seq<char>, int> {
    Map::new(|p: Seq<char>| bl.contains_key(p) && bl[p] > now, |p: Seq<char>| bl[p])
}

/// The distinct providers among the events.
pub open spec fn failing_providers(events: Seq<FailureEvent>) -> Set<Seq<char>> {
    events.map_values(|e: FailureEvent| e.provider@).to_set()
}

/// A provider blocked until a time (microseconds since the epoch).
#[derive(Debug)]
struct BlockEntry {
    provider: ProviderId,
    until_micros: i128,
}

impl Clone for BlockEntry {
    fn clone(&self) -> (r: Self)
        ensures
            r == *self,
    {
        BlockEntry { provider: self.provider.clone(), until_micros: self.until_micros }
    }
}

spec fn keys_unique(s: Seq<BlockEntry>) -> bool {
    forall|i: int, j: int|
        0 <= i < s.len() && 0 <= j < s.len() && i != j ==> s[i].provider@ != s[j].provider@
}

spec fn has_key(s: Seq<BlockEntry>, p: Seq<char>) -> bool {
    exists|i: int| 0 <= i < s.len() && s[i].provider@ == p
}

spec fn key_index(s: Seq<BlockEntry>, p: Seq<char>) -> int {
    choose|i: int| 0 <= i < s.len() && s[i].provider@ == p
}

spec fn block_map(s: Seq<BlockEntry>) -> Map<Seq<char>, int> {
    Map::new(|p: Seq<char>| has_key(s, p), |p: Seq<char>| s[key_index(s, p)].until_micros as int)
}

proof fn lemma_block_map_at(s: Seq<BlockEntry>, k: int)
    requires
        keys_unique(s),
        0 <= k < s.len(),
    ensures
        block_map(s).contains_key(s[k].provider@),
        block_map(s)[s[k].provider@] == s[k].until_micros,
{
    let p = s[k].provider@;
    assert(has_key(s, p));
    let j = key_index(s, p);
    assert(s[j].provider@ == p);
}

/// Thread-free failure history: recent failures per provider plus the blocklist.
/// Holds at most [`MAX_FAILURE_EVENTS`] events, oldest dropped first.
#[derive(Debug)]
pub struct FailureHistory {
    events: Vec<FailureEvent>,
    blocklist: Vec<BlockEntry>,
    max_events: usize,
}

impl FailureHistory {
    #[verifier::type_invariant]
    spec fn well_formed(self) -> bool {
        &&& self.max_events == MAX_FAILURE_EVENTS
        &&& self.events@.len() <= self.max_events
        &&& keys_unique(self.blocklist@)
    }

    /// The retained events, oldest first.
    pub closed spec fn events(&self) -> Seq<FailureEvent> {
        self.events@
    }

    /// Blocked providers and the time (microseconds) each is blocked until.
    pub closed spec fn blocklist(&self) -> Map<Seq<char>, int> {
        block_map(self.blocklist@)
    }

    /// An empty history.
    pub fn new() -> (h: Self)
        ensures
            h.events() == Seq::<FailureEvent>::empty(),
            h.blocklist() == Map::<Seq<char>, int>::empty(),
    {
        let h = FailureHistory { events: Vec::new(), blocklist: Vec::new(), max_events: 1000 };
        assert(h.blocklist() =~= Map::<Seq<char>, int>::empty());
        h
    }

    /// Record a failure observed at `now_micros` and update the blocklist if the
    /// failure class calls for it.
    pub fn record_at(&mut self, provider: ProviderId, class: FailureClass, now_micros: i64)
        ensures
            final(self).events() == keep_newest(
                old(self).events().push(
                    FailureEvent {
                        provider,
                        class,
                        timestamp: now_micros,
                        request_prompt_hash: final(self).events().last().request_prompt_hash,
                    },
                ),
                MAX_FAILURE_EVENTS as int,
            ),
            final(self).events().last().request_prompt_hash@ == Seq::<char>::empty(),
            final(self).events().len() <= MAX_FAILURE_EVENTS,
            final(self).blocklist() == after_failure(
                old(self).blocklist(),
                provider@,
                class,
                now_micros as int,
            ),
    {
        proof {
            use_type_invariant(&*self);
        }
        let ghost old_events = self.events@;
        let ghost old_bl = self.blocklist@;
        let event = FailureEvent {
            provider: provider.clone(),
            class,
            timestamp: now_micros,
            request_prompt_hash: String::new(),
        };
        let mut events: Vec<FailureEvent> = Vec::new();
        std::mem::swap(&mut events, &mut self.events);
        events.push(event);
        if events.len() > self.max_events {
            events.remove(0);
            assert(events@ =~= old_events.push(event).subrange(
                old_events.len() + 1 - MAX_FAILURE_EVENTS as int,
                old_events.len() + 1 as int,
            ));
        }
        self.events = events;
        let block_duration = class.blocklist_duration_s();
        if block_duration > 0 {
            let until = now_micros as i128 + (block_duration as i128) * MICROS_PER_SECOND;
            let mut bl: Vec<BlockEntry> = Vec::new();
            std::mem::swap(&mut bl, &mut self.blocklist);
            match find_block_in(&bl, &provider) {
                Some(k) => {
                    bl.set(k, BlockEntry { provider, until_micros: until });
                    proof {
                        let p = bl@[k as int].provider@;
                        assert(keys_unique(bl@));
                        lemma_block_map_at(bl@, k as int);
                        assert forall|q: Seq<char>| #[trigger]
                            block_map(bl@).contains_key(q) == block_map(old_bl).insert(
                                p,
                                until as int,
                            ).contains_key(q) by {
                            if q != p {
                                if has_key(old_bl, q) {
                                    let j = key_index(old_bl, q);
                                    assert(bl@[j].provider@ == q);
                                }
                                if has_key(bl@, q) {
                                    let j = key_index(bl@, q);
                                    assert(old_bl[j].provider@ == q);
                                }
                            }
                        }
                        assert forall|q: Seq<char>| #[trigger]
                            block_map(bl@).contains_key(q) && q != p implies block_map(bl@)[q]
                            == block_map(old_bl)[q] by {
                            let j = key_index(bl@, q);
                            assert(bl@[j].provider@ == q);
                            assert(old_bl[j].provider@ == q);
                            lemma_block_map_at(old_bl, j);
                        }
                        assert(block_map(bl@) =~= block_map(old_bl).insert(p, until as int));
                    }
                },
                None => {
                    bl.push(BlockEntry { provider, until_micros: until });
                    proof {
                        let n = old_bl.len();
                        let p = bl@[n as int].provider@;
                        assert(keys_unique(bl@));
                        lemma_block_map_at(bl@, n as int);
                        assert forall|q: Seq<char>| #[trigger]
                            block_map(bl@).contains_key(q) == block_map(old_bl).insert(
                                p,
                                until as int,
                            ).contains_key(q) by {
                            if q != p {
                                if has_key(old_bl, q) {
                                    let j = key_index(old_bl, q);
                                    assert(bl@[j].provider@ == q);
                                }
                                if has_key(bl@, q) {
                                    let j = key_index(bl@, q);
                                    assert(old_bl[j].provider@ == q);
                                }
                            }
                        }
                        assert forall|q: Seq<char>| #[trigger]
                            block_map(bl@).contains_key(q) && q != p implies block_map(bl@)[q]
                            == block_map(old_bl)[q] by {
                            let j = key_index(bl@, q);
                            assert(bl@[j].provider@ == q);
                            assert(j < n);
                            assert(old_bl[j].provider@ == q);
                            lemma_block_map_at(old_bl, j);
                            lemma_block_map_at(bl@, j);
                        }
                        assert(block_map(bl@) =~= block_map(old_bl).insert(p, until as int));
                    }
                },
            }
            self.blocklist = bl;
        }
    }

    /// Record a failure, timestamped with the current time, and update the
    /// blocklist if the failure class calls for it.
    pub fn record(&mut self, provider: ProviderId, class: FailureClass)
        ensures
            exists|now: i64|
                now >= 0 && final(self).events() == keep_newest(
                    old(self).events().push(
                        FailureEvent {
                            provider,
                            class,
                            timestamp: now,
                            request_prompt_hash: final(self).events().last().request_prompt_hash,
                        },
                    ),
                    MAX_FAILURE_EVENTS as int,
                ) && final(self).blocklist() == after_failure(
                    old(self).blocklist(),
                    provider@,
                    class,
                    now as int,
                ),
            final(self).events().last().request_prompt_hash@ == Seq::<char>::empty(),
            final(self).events().len() <= MAX_FAILURE_EVENTS,
    {
        let now = now_micros();
        self.record_at(provider, class, now);
    }

    /// The history never holds more than [`MAX_FAILURE_EVENTS`] events.
    pub(crate) fn retained_within_limit(&self)
        ensures
            self.events().len() <= MAX_FAILURE_EVENTS,
    {
        proof {
            use_type_invariant(self);
        }
    }

    /// Is this provider blocklisted at time `now_micros`?
    pub fn is_blocklisted_at(&self, provider: &ProviderId, now_micros: i64) -> (r: bool)
        ensures
            r == blocked_at(self.blocklist(), provider@, now_micros as int),
    {
        proof {
            use_type_invariant(self);
        }
        match find_block_in(&self.blocklist, provider) {
            Some(k) => {
                proof {
                    lemma_block_map_at(self.blocklist@, k as int);
                }
                (now_micros as i128) < self.blocklist[k].until_micros
            },
            None => false,
        }
    }

    /// Is this provider currently blocklisted?
    pub fn is_blocklisted(&self, provider: &ProviderId) -> (r: bool)
        ensures
            exists|now: i64| now >= 0 && r == blocked_at(self.blocklist(), provider@, now as int),
    {
        let now = now_micros();
        self.is_blocklisted_at(provider, now)
    }

    /// Count the retained failures of a provider (at most [`MAX_FAILURE_EVENTS`]).
    pub fn recent_failure_count(&self, provider: &ProviderId) -> (r: usize)
        ensures
            r == failure_count(self.events(), provider@),
            r <= MAX_FAILURE_EVENTS,
            self.events().len() <= MAX_FAILURE_EVENTS,
    {
        proof {
            use_type_invariant(self);
        }
        let ghost pred = of_provider(provider@);
        let mut count: usize = 0;
        let mut i: usize = 0;
        while i < self.events.len()
            invariant
                i <= self.events@.len(),
                self.events@.len() <= MAX_FAILURE_EVENTS,
                count == self.events@.take(i as int).filter(pred).len(),
                count <= i,
                pred == of_provider(provider@),
            decreases self.events@.len() - i,
        {
            proof {
                let s = self.events@;
                assert(s.take(i + 1) =~= s.take(i as int).push(s[i as int]));
                s.take(i as int).lemma_filter_push(s[i as int], pred);
            }
            if self.events[i].provider == *provider {
                count = count + 1;
            }
            i = i + 1;
        }
        assert(self.events@.take(i as int) =~= self.events@);
        count
    }

    /// The class of the most recent retained failure of a provider.
    pub fn last_failure(&self, provider: &ProviderId) -> (r: Option<FailureClass>)
        ensures
            r == last_class(self.events(), provider@),
    {
        let mut last: Option<FailureClass> = None;
        let mut i: usize = 0;
        while i < self.events.len()
            invariant
                i <= self.events@.len(),
                last == last_class(self.events@.take(i as int), provider@),
            decreases self.events@.len() - i,
        {
            proof {
                let s = self.events@;
                assert(s.take(i + 1).drop_last() =~= s.take(i as int));
            }
            if self.events[i].provider == *provider {
                last = Some(self.events[i].class);
            }
            i = i + 1;
        }
        assert(self.events@.take(i as int) =~= self.events@);
        last
    }

    /// All retained failures of a provider, oldest first.
    pub fn failures_for(&self, provider: &ProviderId) -> (r: Vec<FailureEvent>)
        ensures
            r@ == self.events().filter(of_provider(provider@)),
    {
        let ghost pred = of_provider(provider@);
        let mut out: Vec<FailureEvent> = Vec::new();
        let mut i: usize = 0;
        while i < self.events.len()
            invariant
                i <= self.events@.len(),
                out@ == self.events@.take(i as int).filter(pred),
                pred == of_provider(provider@),
            decreases self.events@.len() - i,
        {
            proof {
                let s = self.events@;
                assert(s.take(i + 1) =~= s.take(i as int).push(s[i as int]));
                s.take(i as int).lemma_filter_push(s[i as int], pred);
            }
            if self.events[i].provider == *provider {
                out.push(self.events[i].clone());
            }
            i = i + 1;
        }
        assert(self.events@.take(i as int) =~= self.events@);
        out
    }

    /// Drop the blocklist entries that have expired at `now_micros`.
    pub fn prune_blocklist_at(&mut self, now_micros: i64)
        ensures
            final(self).events() == old(self).events(),
            final(self).blocklist() == unexpired(old(self).blocklist(), now_micros as int),
    {
        proof {
            use_type_invariant(&*self);
        }
        let ghost old_bl = self.blocklist@;
        let mut kept: Vec<BlockEntry> = Vec::new();
        let ghost mut src: Seq<int> = Seq::empty();
        let mut i: usize = 0;
        while i < self.blocklist.len()
            invariant
                i <= old_bl.len(),
                self.blocklist@ == old_bl,
                keys_unique(old_bl),
                src.len() == kept@.len(),
                forall|k: int|
                    0 <= k < kept@.len() ==> 0 <= #[trigger] src[k] < i && kept@[k] == old_bl[src[k]]
                        && old_bl[src[k]].until_micros > now_micros,
                forall|a: int, b: int| 0 <= a < b < src.len() ==> src[a] < src[b],
                forall|j: int|
                    0 <= j < i && #[trigger] old_bl[j].until_micros > now_micros ==> exists|k: int|
                        0 <= k < src.len() && src[k] == j,
            decreases old_bl.len() - i,
        {
            let ghost src0 = src;
            let e = self.blocklist[i].clone();
            if e.until_micros > now_micros as i128 {
                kept.push(e);
                proof {
                    src = src.push(i as int);
                    assert(src[src.len() - 1] == i);
                }
            }
            proof {
                assert forall|j: int|
                    0 <= j < i + 1 && #[trigger] old_bl[j].until_micros > now_micros implies exists|k: int|
                        0 <= k < src.len() && src[k] == j by {
                    if j == i {
                        assert(src[src.len() - 1] == j);
                    } else {
                        let k = choose|k: int| 0 <= k < src0.len() && src0[k] == j;
                        assert(src[k] == j);
                    }
                }
            }
            i = i + 1;
        }
        proof {
            assert forall|a: int, b: int|
                0 <= a < kept@.len() && 0 <= b < kept@.len() && a != b implies kept@[a].provider@
                != kept@[b].provider@ by {
                assert(src[a] != src[b]);
            }
            let m = unexpired(block_map(old_bl), now_micros as int);
            assert forall|q: Seq<char>| #[trigger]
                block_map(kept@).contains_key(q) == m.contains_key(q) by {
                if block_map(kept@).contains_key(q) {
                    let k = key_index(kept@, q);
                    lemma_block_map_at(old_bl, src[k]);
                }
                if m.contains_key(q) {
                    let j = key_index(old_bl, q);
                    lemma_block_map_at(old_bl, j);
                    assert(old_bl[j].until_micros > now_micros);
                    let k = choose|k: int| 0 <= k < src.len() && src[k] == j;
                    assert(kept@[k].provider@ == q);
                }
            }
            assert forall|q: Seq<char>| #[trigger]
                block_map(kept@).contains_key(q) implies block_map(kept@)[q] == m[q] by {
                let k = key_index(kept@, q);
                lemma_block_map_at(old_bl, src[k]);
                lemma_block_map_at(kept@, k);
            }
            assert(block_map(kept@) =~= m);
        }
        self.blocklist = kept;
    }

    /// Drop the blocklist entries that have expired now.
    pub fn prune_blocklist(&mut self)
        ensures
            final(self).events() == old(self).events(),
            exists|now: i64|
                now >= 0 && final(self).blocklist() == unexpired(
                    old(self).blocklist(),
                    now as int,
                ),
    {
        let now = now_micros();
        self.prune_blocklist_at(now);
    }

    /// Counts for trace output: retained events, and distinct providers among them.
    pub fn snapshot(&self) -> (s: FailureHistorySnapshot)
        ensures
            s.total_events == self.events().len(),
            s.providers_with_failures == failing_providers(self.events()).len(),
    {
        let ghost f = |e: FailureEvent| e.provider@;
        let mut seen: Vec<ProviderId> = Vec::new();
        let mut i: usize = 0;
        while i < self.events.len()
            invariant
                i <= self.events@.len(),
                f == (|e: FailureEvent| e.provider@),
                seen@.map_values(|p: ProviderId| p@).no_duplicates(),
                seen@.map_values(|p: ProviderId| p@).to_set() == self.events@.take(
                    i as int,
                ).map_values(f).to_set(),
                seen@.len() <= i,
            decreases self.events@.len() - i,
        {
            let ghost sv = seen@.map_values(|p: ProviderId| p@);
            let p = &self.events[i].provider;
            let mut found = false;
            let mut j: usize = 0;
            while j < seen.len()
                invariant
                    j <= seen@.len(),
                    sv == seen@.map_values(|p: ProviderId| p@),
                    found == exists|k: int| 0 <= k < j && sv[k] == p@,
                decreases seen@.len() - j,
            {
                proof {
                    assert(sv[j as int] == seen@[j as int]@);
                }
                if seen[j] == *p {
                    found = true;
                }
                j = j + 1;
            }
            proof {
                let s = self.events@;
                assert(s.take(i + 1).map_values(f) =~= s.take(i as int).map_values(f).push(p@));
                s.take(i as int).map_values(f).lemma_push_to_set_commute(p@);
            }
            if !found {
                seen.push(p.clone());
                proof {
                    assert(seen@.map_values(|p: ProviderId| p@) =~= sv.push(p@));
                    assert forall|a: int, b: int|
                        0 <= a < sv.len() + 1 && 0 <= b < sv.len() + 1 && a != b implies sv.push(
                            p@,
                        )[a] != sv.push(p@)[b] by {
                        if a < sv.len() && b < sv.len() {
                        } else if a == sv.len() {
                            assert(sv.push(p@)[b] == sv[b]);
                        } else {
                            assert(sv.push(p@)[a] == sv[a]);
                        }
                    }
                    sv.lemma_push_to_set_commute(p@);
                }
            } else {
                proof {
                    let k = choose|k: int| 0 <= k < j && sv[k] == p@;
                    assert(sv.to_set().contains(p@));
                    assert(sv.to_set().insert(p@) =~= sv.to_set());
                }
            }
            i = i + 1;
        }
        proof {
            assert(self.events@.take(i as int) =~= self.events@);
            seen@.map_values(|p: ProviderId| p@).unique_seq_to_set();
        }
        FailureHistorySnapshot { total_events: self.events.len(), providers_with_failures: seen.len() }
    }

}

fn find_block_in(bl: &Vec<BlockEntry>, provider: &ProviderId) -> (r: Option<usize>)
    ensures
        match r {
            Some(k) => k < bl@.len() && bl@[k as int].provider@ == provider@,
            None => !has_key(bl@, provider@),
        },
{
    let mut i: usize = 0;
    while i < bl.len()
        invariant
            i <= bl@.len(),
            forall|k: int| 0 <= k < i ==> bl@[k].provider@ != provider@,
        decreases bl@.len() - i,
    {
        if bl[i].provider == *provider {
            return Some(i);
        }
        i = i + 1;
    }
    None
}

impl Default for FailureHistory {
    fn default() -> (h: Self)
        ensures
            h.events() == Seq::<FailureEvent>::empty(),
            h.blocklist() == Map::<Seq<char>, int>::empty(),
    {
        Self::new()
    }
}

impl Clone for FailureHistory {
    fn clone(&self) -> (h: Self)
        ensures
            h.events() == self.events(),
            h.blocklist() == self.blocklist(),
    {
        proof {
            use_type_invariant(self);
        }
        let mut events: Vec<FailureEvent> = Vec::new();
        let mut i: usize = 0;
        while i < self.events.len()
            invariant
                i <= self.events@.len(),
                events@ == self.events@.take(i as int),
            decreases self.events@.len() - i,
        {
            events.push(self.events[i].clone());
            assert(self.events@.take(i + 1) =~= self.events@.take(i as int).push(self.events@[i as int]));
            i = i + 1;
        }
        let mut blocklist: Vec<BlockEntry> = Vec::new();
        let mut j: usize = 0;
        while j < self.blocklist.len()
            invariant
                j <= self.blocklist@.len(),
                blocklist@ == self.blocklist@.take(j as int),
            decreases self.blocklist@.len() - j,
        {
            blocklist.push(self.blocklist[j].clone());
            assert(self.blocklist@.take(j + 1) =~= self.blocklist@.take(j as int).push(self.blocklist@[j as int]));
            j = j + 1;
        }
        assert(self.events@.take(i as int) =~= self.events@);
        assert(self.blocklist@.take(j as int) =~= self.blocklist@);
        FailureHistory { events, blocklist, max_events: self.max_events }
    }
}

/// Counts of a failure history.
#[derive(Debug, Clone, Copy)]
pub struct FailureHistorySnapshot {
    pub total_events: usize,
    pub providers_with_failures: usize,
}

/// The failure critic — classifies failures and recommends retry targets.
/// Implement it to plug a custom critic into the orchestration loop.
pub trait FailureCritic {
    /// Classify a failure into a `FailureClass`.
    fn classify(&self, error: &GcError) -> FailureClass;

    /// Given a failure class and available providers, recommend a retry target.
    /// Returns `None` if retry is not recommended.
    fn recommend_retry(
        &self,
        class: &FailureClass,
        failed_provider: &ProviderId,
        available: &[ProviderInfo],
    ) -> Option<ProviderId>;
}

/// Default failure critic with heuristic classification.
pub struct DefaultCritic;

/// The failure class the default critic gives an error.
pub open spec fn default_class(e: GcError) -> FailureClass {
    match e {
        GcError::ProviderTimeout { .. } => FailureClass::Timeout,
        GcError::RateLimited { .. } => FailureClass::RateLimit,
        GcError::ContentPolicy { .. } => FailureClass::ContentPolicy,
        GcError::MalformedOutput { .. } => FailureClass::MalformedOutput,
        GcError::ProviderError { status_code, .. } => FailureClass::ProviderError { status_code },
        _ => FailureClass::ProviderError { status_code: 0 },
    }
}

/// Providers other than the one that failed.
pub open spec fn other_than(failed: Seq<char>) -> spec_fn(ProviderInfo) -> bool {
    |p: ProviderInfo| p.id@ != failed
}

/// `i` is the first position of a least key.
pub open spec fn first_min_at(keys: Seq<u64>, i: int) -> bool {
    &&& 0 <= i < keys.len()
    &&& forall|j: int| 0 <= j < keys.len() ==> keys[i] <= keys[j]
    &&& forall|j: int| 0 <= j < i ==> keys[j] > keys[i]
}

/// `i` is the last position of a greatest key.
pub open spec fn last_max_at(keys: Seq<u64>, i: int) -> bool {
    &&& 0 <= i < keys.len()
    &&& forall|j: int| 0 <= j < keys.len() ==> keys[j] <= keys[i]
    &&& forall|j: int| i < j < keys.len() ==> keys[j] < keys[i]
}

/// Maturity of a provider: tool support first, streaming second.
pub open spec fn maturity(p: ProviderInfo) -> u64 {
    if p.supports_tools {
        if p.supports_streaming { 3 } else { 2 }
    } else {
        if p.supports_streaming { 1 } else { 0 }
    }
}

/// The retry target the default critic picks from `available` after `failed`
/// failed with `class`: among the other providers (in their order), the first
/// with the least latency (`PreferFaster`), the first (`PreferAlternative`), the
/// last with the most mature feature set (`PreferMoreReliable`), or the last with
/// the highest output price (`PreferHigherQuality`); none when no other provider exists.
pub open spec fn default_retry(
    class: FailureClass,
    failed: Seq<char>,
    available: Seq<ProviderInfo>,
    r: Option<ProviderId>,
) -> bool {
    let c = available.filter(other_than(failed));
    if c.len() == 0 {
        r is None
    } else {
        exists|i: int|
            0 <= i < c.len() && r == Some(c[i].id) && match strategy_of(class) {
                RetryStrategy::PreferFaster => first_min_at(
                    c.map_values(|p: ProviderInfo| p.avg_latency_ms),
                    i,
                ),
                RetryStrategy::PreferAlternative => i == 0,
                RetryStrategy::PreferMoreReliable => last_max_at(
                    c.map_values(|p: ProviderInfo| maturity(p)),
                    i,
                ),
                RetryStrategy::PreferHigherQuality => last_max_at(
                    c.map_values(|p: ProviderInfo| p.price_per_million_output as u64),
                    i,
                ),
            }
    }
}

fn first_min_index(keys: &Vec<u64>) -> (r: usize)
    requires
        keys@.len() > 0,
    ensures
        first_min_at(keys@, r as int),
{
    let mut best: usize = 0;
    let mut i: usize = 1;
    while i < keys.len()
        invariant
            1 <= i <= keys@.len(),
            best < i,
            forall|j: int| 0 <= j < i ==> keys@[best as int] <= keys@[j],
            forall|j: int| 0 <= j < best ==> keys@[j] > keys@[best as int],
        decreases keys@.len() - i,
    {
        if keys[i] < keys[best] {
            best = i;
        }
        i = i + 1;
    }
    best
}

fn last_max_index(keys: &Vec<u64>) -> (r: usize)
    requires
        keys@.len() > 0,
    ensures
        last_max_at(keys@, r as int),
{
    let mut best: usize = 0;
    let mut i: usize = 1;
    while i < keys.len()
        invariant
            1 <= i <= keys@.len(),
            best < i,
            forall|j: int| 0 <= j < i ==> keys@[j] <= keys@[best as int],
            forall|j: int| best < j < i ==> keys@[j] < keys@[best as int],
        decreases keys@.len() - i,
    {
        if keys[i] >= keys[best] {
            best = i;
        }
        i = i + 1;
    }
    best
}

/// Providers of `available` other than `failed`, in order.
fn others(failed: &ProviderId, available: &[ProviderInfo]) -> (c: Vec<ProviderInfo>)
    ensures
        c@ == available@.filter(other_than(failed@)),
{
    let ghost pred = other_than(failed@);
    let mut c: Vec<ProviderInfo> = Vec::new();
    let mut i: usize = 0;
    while i < available.len()
        invariant
            i <= available@.len(),
            pred == other_than(failed@),
            c@ == available@.take(i as int).filter(pred),
        decreases available@.len() - i,
    {
        proof {
            let s = available@;
            assert(s.take(i + 1) =~= s.take(i as int).push(s[i as int]));
            s.take(i as int).lemma_filter_push(s[i as int], pred);
        }
        if available[i].id != *failed {
            c.push(available[i].clone());
        }
        i = i + 1;
    }
    assert(available@.take(i as int) =~= available@);
    c
}

impl FailureCritic for DefaultCritic {
    fn classify(&self, error: &GcError) -> (r: FailureClass)
        ensures
            r == default_class(*error),
    {
        match error {
            GcError::ProviderTimeout { .. } => FailureClass::Timeout,
            GcError::RateLimited { .. } => FailureClass::RateLimit,
            GcError::ContentPolicy { .. } => FailureClass::ContentPolicy,
            GcError::MalformedOutput { .. } => FailureClass::MalformedOutput,
            GcError::ProviderError { status_code, .. } => FailureClass::ProviderError {
                status_code: *status_code,
            },
            _ => FailureClass::ProviderError { status_code: 0 },
        }
    }

    fn recommend_retry(
        &self,
        class: &FailureClass,
        failed_provider: &ProviderId,
        available: &[ProviderInfo],
    ) -> (r: Option<ProviderId>)
        ensures
            default_retry(*class, failed_provider@, available@, r),
    {
        let strategy = class.retry_strategy();
        let candidates = others(failed_provider, available);
        if candidates.len() == 0 {
            return None;
        }
        let n = candidates.len();
        let mut keys: Vec<u64> = Vec::new();
        let mut i: usize = 0;
        while i < n
            invariant
                n == candidates@.len(),
                i <= n,
                keys@.len() == i,
                forall|k: int|
                    0 <= k < i ==> #[trigger] keys@[k] == match strategy {
                        RetryStrategy::PreferFaster => candidates@[k].avg_latency_ms,
                        RetryStrategy::PreferMoreReliable => maturity(candidates@[k]),
                        _ => candidates@[k].price_per_million_output as u64,
                    },
            decreases n - i,
        {
            let p = &candidates[i];
            let key: u64 = match strategy {
                RetryStrategy::PreferFaster => p.avg_latency_ms,
                RetryStrategy::PreferMoreReliable => {
                    if p.supports_tools {
                        if p.supports_streaming { 3 } else { 2 }
                    } else {
                        if p.supports_streaming { 1 } else { 0 }
                    }
                },
                _ => p.price_per_million_output as u64,
            };
            keys.push(key);
            i = i + 1;
        }
        let pick: usize = match strategy {
            RetryStrategy::PreferFaster => {
                assert(keys@ =~= candidates@.map_values(|p: ProviderInfo| p.avg_latency_ms));
                first_min_index(&keys)
            },
            RetryStrategy::PreferAlternative => 0,
            RetryStrategy::PreferMoreReliable => {
                assert(keys@ =~= candidates@.map_values(|p: ProviderInfo| maturity(p)));
                last_max_index(&keys)
            },
            RetryStrategy::PreferHigherQuality => {
                assert(keys@ =~= candidates@.map_values(
                    |p: ProviderInfo| p.price_per_million_output as u64,
                ));
                last_max_index(&keys)
            },
        };
        Some(candidates[pick].id.clone())
    }
}

// ───────────────────────────── laws ─────────────────────────────

/// The history keeps the newest failures: after a failure is recorded it holds
/// at most [`MAX_FAILURE_EVENTS`] events, the newest of which is the one just
/// recorded, and nothing is dropped while there is room.
pub proof fn law_history_keeps_newest(events: Seq<FailureEvent>, e: FailureEvent)
    requires
        events.len() <= MAX_FAILURE_EVENTS,
    ensures
        keep_newest(events.push(e), MAX_FAILURE_EVENTS as int).len() <= MAX_FAILURE_EVENTS,
        keep_newest(events.push(e), MAX_FAILURE_EVENTS as int).last() == e,
        events.len() < MAX_FAILURE_EVENTS ==> keep_newest(events.push(e), MAX_FAILURE_EVENTS as int)
            == events.push(e),
        events.len() == MAX_FAILURE_EVENTS ==> keep_newest(events.push(e), MAX_FAILURE_EVENTS as int)
            == events.drop_first().push(e),
{
    if events.len() == MAX_FAILURE_EVENTS {
        assert(keep_newest(events.push(e), MAX_FAILURE_EVENTS as int) =~= events.drop_first().push(e));
    }
}

/// A failure of a class that blocks keeps its provider blocklisted from the
/// moment it is recorded until the class's duration has passed, and no
/// longer; a failure of a class that does not block leaves the blocklist as
/// it was.
pub proof fn law_failure_blocks_for_its_duration(
    bl: Map<Seq<char>, int>,
    p: Seq<char>,
    c: FailureClass,
    now: int,
    t: int,
)
    ensures
        block_seconds(c) > 0 ==> (blocked_at(after_failure(bl, p, c, now), p, t) <==> t < now
            + block_seconds(c) * MICROS_PER_SECOND),
        block_seconds(c) == 0 ==> after_failure(bl, p, c, now) == bl,
        forall|q: Seq<char>|
            q != p ==> (blocked_at(after_failure(bl, p, c, now), q, t) <==> blocked_at(bl, q, t)),
{
}

/// A retry never goes back to the provider that failed: the critic's target
/// is one of the other available providers.
pub proof fn law_retry_targets_another_provider(
    class: FailureClass,
    failed: Seq<char>,
    available: Seq<ProviderInfo>,
    r: Option<ProviderId>,
)
    requires
        default_retry(class, failed, available, r),
    ensures
        r matches Some(q) ==> q@ != failed && exists|i: int|
            0 <= i < available.len() && (#[trigger] available[i]).id == q,
        r is None <==> forall|i: int| 0 <= i < available.len() ==> (#[trigger] available[i]).id@ == failed,
{
    let pred = other_than(failed);
    let c = available.filter(pred);
    if c.len() > 0 {
        let i = choose|i: int|
            0 <= i < c.len() && r == Some(c[i].id) && match strategy_of(class) {
                RetryStrategy::PreferFaster => first_min_at(
                    c.map_values(|p: ProviderInfo| p.avg_latency_ms),
                    i,
                ),
                RetryStrategy::PreferAlternative => i == 0,
                RetryStrategy::PreferMoreReliable => last_max_at(
                    c.map_values(|p: ProviderInfo| maturity(p)),
                    i,
                ),
                RetryStrategy::PreferHigherQuality => last_max_at(
                    c.map_values(|p: ProviderInfo| p.price_per_million_output as u64),
                    i,
                ),
            };
        available.lemma_filter_pred(pred, i);
        assert(c.contains(c[i]));
        available.lemma_filter_contains_rev(pred, c[i]);
        let k = choose|k: int| 0 <= k < available.len() && available[k] == c[i];
        assert(available[k].id == c[i].id);
        assert(available[k].id@ != failed);
        assert(!(forall|j: int| 0 <= j < available.len() ==> (#[trigger] available[j]).id@ == failed));
    } else {
        assert forall|j: int| 0 <= j < available.len() implies (#[trigger] available[j]).id@
            == failed by {
            if available[j].id@ != failed {
                available.lemma_filter_contains(pred, j);
            }
        }
    }
}

/// Under `PreferMoreReliable` the retry target has the best feature set among
/// the other providers, tool support first and streaming second: no other
/// provider supports tools where the target does not, and none with the same
/// tool support streams where the target does not. So where some other
/// provider supports both, the target supports both. Of the other providers
/// with the target's feature set, the target is the last.
pub proof fn law_reliable_retry_prefers_tools_then_streaming(
    class: FailureClass,
    failed: Seq<char>,
    available: Seq<ProviderInfo>,
    r: Option<ProviderId>,
)
    requires
        default_retry(class, failed, available, r),
        strategy_of(class) == RetryStrategy::PreferMoreReliable,
    ensures
        r matches Some(q) ==> exists|i: int|
            0 <= i < available.len() && (#[trigger] available[i]).id == q && available[i].id@ != failed
                && forall|j: int|
                0 <= j < available.len() && (#[trigger] available[j]).id@ != failed ==> (
                available[j].supports_tools ==> available[i].supports_tools) && (
                available[j].supports_tools == available[i].supports_tools
                    && available[j].supports_streaming ==> available[i].supports_streaming),
        r matches Some(q) ==> exists|i: int|
            0 <= i < available.filter(other_than(failed)).len() && (#[trigger] available.filter(
                other_than(failed),
            )[i]).id == q && forall|m: int|
                i < m < available.filter(other_than(failed)).len() ==> !((#[trigger] available.filter(
                    other_than(failed),
                )[m]).supports_tools == available.filter(other_than(failed))[i].supports_tools
                    && available.filter(other_than(failed))[m].supports_streaming == available.filter(
                    other_than(failed),
                )[i].supports_streaming),
{
    let pred = other_than(failed);
    let c = available.filter(pred);
    if c.len() > 0 {
        let keys = c.map_values(|p: ProviderInfo| maturity(p));
        let i = choose|i: int| 0 <= i < c.len() && r == Some(c[i].id) && last_max_at(keys, i);
        available.lemma_filter_pred(pred, i);
        assert(c.contains(c[i]));
        available.lemma_filter_contains_rev(pred, c[i]);
        let k = choose|k: int| 0 <= k < available.len() && available[k] == c[i];
        assert forall|j: int|
            0 <= j < available.len() && (#[trigger] available[j]).id@ != failed implies (
            available[j].supports_tools ==> available[k].supports_tools) && (
            available[j].supports_tools == available[k].supports_tools
                && available[j].supports_streaming ==> available[k].supports_streaming) by {
            available.lemma_filter_contains(pred, j);
            let m = choose|m: int| 0 <= m < c.len() && c[m] == available[j];
            assert(keys[m] <= keys[i]);
        }
        assert(available[k].id == c[i].id);
        assert forall|m: int| i < m < c.len() implies !((#[trigger] c[m]).supports_tools
            == c[i].supports_tools && c[m].supports_streaming == c[i].supports_streaming) by {
            assert(keys[m] < keys[i]);
        }
    }
}

/// The last failure reported for a provider is that of its newest retained
/// event: `None` exactly when no event is of that provider, and otherwise the
/// class of an event of that provider after which none of it follows.
pub proof fn law_last_failure_is_newest_of_provider(events: Seq<FailureEvent>, p: Seq<char>)
    ensures
        last_class(events, p) is None <==> forall|i: int|
            0 <= i < events.len() ==> (#[trigger] events[i]).provider@ != p,
        last_class(events, p) matches Some(c) ==> exists|i: int|
            0 <= i < events.len() && (#[trigger] events[i]).provider@ == p && events[i].class == c
                && forall|j: int| i < j < events.len() ==> (#[trigger] events[j]).provider@ != p,
    decreases events.len(),
{
    if events.len() > 0 {
        let s = events.drop_last();
        let n = events.len() - 1;
        law_last_failure_is_newest_of_provider(s, p);
        if events[n].provider@ == p {
            assert(events[n].provider@ == p);
        } else {
            assert forall|i: int| 0 <= i < n implies events[i] == s[i] by {}
            if last_class(s, p) is None {
                assert forall|i: int| 0 <= i < events.len() implies (#[trigger] events[i]).provider@
                    != p by {
                    if i < n {
                        assert(events[i] == s[i]);
                    }
                }
            } else {
                let c = last_class(s, p)->Some_0;
                let i = choose|i: int|
                    0 <= i < s.len() && (#[trigger] s[i]).provider@ == p && s[i].class == c
                        && forall|j: int| i < j < s.len() ==> (#[trigger] s[j]).provider@ != p;
                assert(events[i] == s[i]);
                assert forall|j: int| i < j < events.len() implies (#[trigger] events[j]).provider@
                    != p by {
                    if j < n {
                        assert(events[j] == s[j]);
                    }
                }
                assert(s[i].provider@ == p);
            }
        }
    }
}

/// Recording a failure of one provider leaves the last failure reported for
/// every other provider as it was, and makes its own class the last failure
/// of that provider.
pub proof fn law_last_failure_after_append(events: Seq<FailureEvent>, e: FailureEvent, p: Seq<char>)
    ensures
        e.provider@ != p ==> last_class(events.push(e), p) == last_class(events, p),
        e.provider@ == p ==> last_class(events.push(e), p) == Some(e.class),
{
    assert(events.push(e).drop_last() =~= events);
}

} // verus!
