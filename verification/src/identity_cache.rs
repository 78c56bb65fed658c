use vstd::prelude::*;
use crate::errors::DiscoveryError;
use crate::identity::{
    Identity, lemma_sort_desc_multiset, lemma_sort_desc_sorted, lemma_sort_desc_stable, sort_desc,
    sort_identities, sorted_desc, ties,
};

verus! {

/// What a `list` call does next, decided while the cache's lock is held: a
/// populated cache answers from memory, an empty one must run enumeration.
pub enum ListDecision {
    Cached(Vec<Identity>),
    MustEnumerate,
}

/// Process-lifetime memoization of the enumerated identity list. The state
/// goes one way, Empty to Populated, and never reverts: a successful
/// enumeration is stored sorted most-recent-first, a failed one leaves the
/// cache empty so the next caller retries. Callers hold one exclusive lock
/// around `list_decision` and around `finish_enumeration`, and never across
/// the enumeration itself.
pub struct IdentityCache {
    entries: Option<Vec<Identity>>,
}

impl IdentityCache {
    /// Whether the one-way Empty to Populated transition has happened.
    pub closed spec fn is_populated(self) -> bool {
        self.entries is Some
    }

    /// The memoized, sorted identity list.
    pub closed spec fn stored(self) -> Seq<Identity>
        recommends
            self.is_populated(),
    {
        self.entries.unwrap()@
    }

    /// What any reader observes: the stored list once populated, else nothing.
    pub closed spec fn list_view(self) -> Option<Seq<Identity>> {
        if self.is_populated() {
            Some(self.stored())
        } else {
            None::<Seq<Identity>>
        }
    }

    /// A fresh cache, empty until the first successful enumeration.
    pub fn new() -> (c: Self)
        ensures
            !c.is_populated(),
    {
        IdentityCache { entries: None }
    }

    /// The check-then-act step of `list`: a populated cache hands back a
    /// clone of its snapshot and is never enumerated again; only an empty
    /// cache sends the caller to the enumeration mechanism.
    pub fn list_decision(&self) -> (d: ListDecision)
        ensures
            match d {
                ListDecision::Cached(v) => self.list_view() == Some(v@),
                ListDecision::MustEnumerate => self.list_view() is None,
            },
    {
        match &self.entries {
            Some(v) => ListDecision::Cached(clone_identities(v)),
            None => ListDecision::MustEnumerate,
        }
    }

    /// Finishes a first `list` call with the enumeration's outcome. Success
    /// stores the sorted list and returns it; failure is not memoized: the
    /// cache stays empty and the error passes through unchanged.
    pub fn finish_enumeration(&mut self, outcome: Result<Vec<Identity>, DiscoveryError>) -> (r:
        Result<Vec<Identity>, DiscoveryError>)
        requires
            !old(self).is_populated(),
        ensures
            match outcome {
                Ok(raw) => final(self).list_view() == Some(sort_desc(raw@)) && (r matches Ok(v)
                    && v@ == sort_desc(raw@)),
                Err(e) => !final(self).is_populated() && r == Err::<Vec<Identity>, DiscoveryError>(
                    e,
                ),
            },
    {
        match outcome {
            Ok(raw) => {
                let sorted = sort_identities(&raw);
                let snapshot = clone_identities(&sorted);
                self.entries = Some(sorted);
                Ok(snapshot)
            },
            Err(e) => Err(e),
        }
    }
}

/// An element-wise copy whose view is exactly the input's.
pub fn clone_identities(v: &Vec<Identity>) -> (r: Vec<Identity>)
    ensures
        r@ == v@,
{
    let mut r: Vec<Identity> = Vec::new();
    let mut i: usize = 0;
    while i < v.len()
        invariant
            0 <= i <= v@.len(),
            r@ == v@.subrange(0, i as int),
        decreases v@.len() - i,
    {
        let x = v[i].clone();
        r.push(x);
        proof {
            assert(v@.subrange(0, i as int).push(v@[i as int]) =~= v@.subrange(0, i as int + 1));
        }
        i = i + 1;
    }
    proof {
        assert(v@.subrange(0, v@.len() as int) =~= v@);
    }
    r
}

/// One caller's turn in the cache's critical section: a racing first call
/// either reads the populated snapshot, populates from a successful
/// enumeration, or fails and leaves the cache empty. `list_decision` plus
/// `finish_enumeration` perform exactly these steps, each under the lock.
pub enum CacheEvent {
    Read(Seq<Identity>),
    PopulateOk(Seq<Identity>),
    PopulateFail,
}

/// Whether one event can happen in a given cache state: a read needs the
/// populated snapshot, a populate of either outcome needs the empty state.
pub open spec fn step_allowed(state: Option<Seq<Identity>>, e: CacheEvent) -> bool {
    match e {
        CacheEvent::Read(v) => state == Some(v),
        CacheEvent::PopulateOk(_) => state is None,
        CacheEvent::PopulateFail => state is None,
    }
}

/// The cache state after one event: only a successful populate changes it,
/// and it stores the sorted enumeration.
pub open spec fn step_result(state: Option<Seq<Identity>>, e: CacheEvent) -> Option<
    Seq<Identity>,
> {
    match e {
        CacheEvent::Read(_) => state,
        CacheEvent::PopulateOk(raw) => Some(sort_desc(raw)),
        CacheEvent::PopulateFail => state,
    }
}

/// Whether a sequence of critical sections can happen from a state: each
/// event is allowed in the state the ones before it left.
pub open spec fn valid_trace(state: Option<Seq<Identity>>, trace: Seq<CacheEvent>) -> bool
    decreases trace.len(),
{
    trace.len() == 0 || (step_allowed(state, trace[0]) && valid_trace(
        step_result(state, trace[0]),
        trace.drop_first(),
    ))
}

/// How many enumerations a trace consumed successfully.
pub open spec fn populate_count(trace: Seq<CacheEvent>) -> nat
    decreases trace.len(),
{
    if trace.len() == 0 {
        0
    } else {
        (match trace[0] {
            CacheEvent::PopulateOk(_) => 1 as nat,
            _ => 0 as nat,
        }) + populate_count(trace.drop_first())
    }
}

proof fn lemma_populated_state_is_final(l: Seq<Identity>, trace: Seq<CacheEvent>)
    requires
        valid_trace(Some(l), trace),
    ensures
        populate_count(trace) == 0,
        forall|i: int|
            0 <= i < trace.len() ==> (#[trigger] trace[i] matches CacheEvent::Read(v) && v == l),
    decreases trace.len(),
{
    if trace.len() > 0 {
        lemma_populated_state_is_final(l, trace.drop_first());
        assert forall|i: int|
            0 <= i < trace.len() implies (#[trigger] trace[i] matches CacheEvent::Read(v) && v
            == l) by {
            if i > 0 {
                assert(trace.drop_first()[i - 1] == trace[i]);
            }
        }
    }
}

/// Under arbitrary races of first calls, the enumeration's work is consumed
/// for at most one successful populate per process lifetime, and every read,
/// whenever it runs, observes one and the same final ordered list.
pub proof fn lemma_enumeration_at_most_once(trace: Seq<CacheEvent>)
    requires
        valid_trace(None::<Seq<Identity>>, trace),
    ensures
        populate_count(trace) <= 1,
        forall|i: int, j: int|
            0 <= i < trace.len() && 0 <= j < trace.len() && (#[trigger] trace[i] matches
            CacheEvent::Read(_)) && (#[trigger] trace[j] matches CacheEvent::Read(_)) ==> trace[i]
                == trace[j],
    decreases trace.len(),
{
    if trace.len() > 0 {
        let rest = trace.drop_first();
        match trace[0] {
            CacheEvent::Read(_) => {
                assert(false);
            },
            CacheEvent::PopulateFail => {
                lemma_enumeration_at_most_once(rest);
                assert forall|i: int, j: int|
                    0 <= i < trace.len() && 0 <= j < trace.len() && (trace[i] matches
                    CacheEvent::Read(_)) && (trace[j] matches CacheEvent::Read(_)) implies trace[i]
                    == trace[j] by {
                    assert(i > 0 && j > 0);
                    assert(rest[i - 1] == trace[i]);
                    assert(rest[j - 1] == trace[j]);
                }
            },
            CacheEvent::PopulateOk(raw) => {
                lemma_populated_state_is_final(sort_desc(raw), rest);
                assert forall|i: int, j: int|
                    0 <= i < trace.len() && 0 <= j < trace.len() && (trace[i] matches
                    CacheEvent::Read(_)) && (trace[j] matches CacheEvent::Read(_)) implies trace[i]
                    == trace[j] by {
                    assert(i > 0 && j > 0);
                    assert(rest[i - 1] == trace[i]);
                    assert(rest[j - 1] == trace[j]);
                }
            },
        }
    }
}

/// What a successful populate serves — the stable descending ordering of the
/// enumeration — is sorted by timestamp descending, keeps the enumeration's
/// relative order among equal timestamps, and is a permutation of what was
/// enumerated.
pub proof fn lemma_list_is_sorted_view(raw: Seq<Identity>, t: u64)
    ensures
        sorted_desc(sort_desc(raw)),
        ties(sort_desc(raw), t) == ties(raw, t),
        sort_desc(raw).to_multiset() == raw.to_multiset(),
{
    lemma_sort_desc_sorted(raw);
    lemma_sort_desc_stable(raw, t);
    lemma_sort_desc_multiset(raw);
}

/// All readers of one populated cache observe one and the same final ordered
/// list, whoever they are: the observed snapshot is a function of the cache
/// state alone.
pub proof fn lemma_readers_agree(c: IdentityCache, v1: Seq<Identity>, v2: Seq<Identity>)
    requires
        c.list_view() == Some(v1),
        c.list_view() == Some(v2),
    ensures
        v1 == v2,
{
}

} // verus!
