use vstd::prelude::*;
use crate::errors::EnrichmentError;

verus! {

/// A remotely fetched profile for one identity key. Beyond the key that
/// stores it, the attributes are an opaque payload to this subsystem.
#[derive(Debug, PartialEq, Eq)]
pub struct EnrichedProfile {
    pub id: String,
    pub display_name: Option<String>,
    pub avatar_url: Option<String>,
    pub status: Option<String>,
}

impl Clone for EnrichedProfile {
    fn clone(&self) -> (res: Self)
        ensures
            res == *self,
    {
        EnrichedProfile {
            id: self.id.clone(),
            display_name: clone_opt(&self.display_name),
            avatar_url: clone_opt(&self.avatar_url),
            status: clone_opt(&self.status),
        }
    }
}

fn clone_opt(o: &Option<String>) -> (r: Option<String>)
    ensures
        r == *o,
{
    match o {
        Some(s) => Some(s.clone()),
        None => None,
    }
}

struct Entry {
    key: String,
    profile: EnrichedProfile,
}

/// What the locked read step of `fetch` found for a key.
pub enum FetchDecision {
    Hit(EnrichedProfile),
    Miss,
}

/// Process-lifetime memoization of remote profile enrichments, keyed by
/// identity. Entries are only ever added. The store is an append-only log
/// read back last-write-wins, so two callers that raced on the same miss may
/// both record a profile and the later record is the one every later reader
/// sees; failures are never recorded. Callers hold one exclusive lock around
/// `lookup` and around `finish_fetch`, and never across the remote call.
pub struct ProfileEnrichmentCache {
    entries: Vec<Entry>,
}

/// The key/profile map a log denotes: a later entry shadows an earlier one
/// with the same key.
spec fn map_of(s: Seq<Entry>) -> Map<Seq<char>, EnrichedProfile>
    decreases s.len(),
{
    if s.len() == 0 {
        Map::empty()
    } else {
        map_of(s.drop_last()).insert(s.last().key@, s.last().profile)
    }
}

proof fn lemma_map_of_absent(s: Seq<Entry>, k: Seq<char>)
    requires
        forall|i: int| 0 <= i < s.len() ==> s[i].key@ != k,
    ensures
        !map_of(s).dom().contains(k),
    decreases s.len(),
{
    if s.len() > 0 {
        lemma_map_of_absent(s.drop_last(), k);
    }
}

proof fn lemma_map_of_last_match(s: Seq<Entry>, k: Seq<char>, i: int)
    requires
        0 <= i < s.len(),
        s[i].key@ == k,
        forall|j: int| i < j < s.len() ==> s[j].key@ != k,
    ensures
        map_of(s).dom().contains(k),
        map_of(s)[k] == s[i].profile,
    decreases s.len(),
{
    if i == s.len() - 1 {
    } else {
        lemma_map_of_last_match(s.drop_last(), k, i);
    }
}

impl ProfileEnrichmentCache {
    /// The memoized profile map this cache holds.
    pub closed spec fn as_map(self) -> Map<Seq<char>, EnrichedProfile> {
        map_of(self.entries@)
    }

    /// A fresh cache with no memoized profile.
    pub fn new() -> (c: Self)
        ensures
            c.as_map() == Map::<Seq<char>, EnrichedProfile>::empty(),
    {
        ProfileEnrichmentCache { entries: Vec::new() }
    }

    /// The locked read step of `fetch`: a memoized key answers with a clone
    /// of its profile and needs no remote call; only a miss sends the caller
    /// to the enrichment provider.
    pub fn lookup(&self, key: &String) -> (d: FetchDecision)
        ensures
            match d {
                FetchDecision::Hit(p) => self.as_map().dom().contains(key@) && p
                    == self.as_map().index(key@),
                FetchDecision::Miss => !self.as_map().dom().contains(key@),
            },
    {
        let n = self.entries.len();
        let mut i: usize = n;
        while i > 0
            invariant
                0 <= i <= n,
                n == self.entries@.len(),
                forall|j: int| i <= j < n ==> self.entries@[j].key@ != key@,
            decreases i,
        {
            i = i - 1;
            if self.entries[i].key == *key {
                proof {
                    lemma_map_of_last_match(self.entries@, key@, i as int);
                }
                return FetchDecision::Hit(self.entries[i].profile.clone());
            }
        }
        proof {
            lemma_map_of_absent(self.entries@, key@);
        }
        FetchDecision::Miss
    }

    /// Finishes a `fetch` with the remote call's outcome. Success records the
    /// profile under the key, last write winning over any racing record, and
    /// returns it; failure records nothing and passes the error through.
    pub fn finish_fetch(&mut self, key: String, outcome: Result<EnrichedProfile, EnrichmentError>)
        -> (r: Result<EnrichedProfile, EnrichmentError>)
        ensures
            match outcome {
                Ok(p) => final(self).as_map() == old(self).as_map().insert(key@, p) && (r matches
                Ok(q) && q == p),
                Err(e) => final(self).as_map() == old(self).as_map() && r == Err::<
                    EnrichedProfile,
                    EnrichmentError,
                >(e),
            },
    {
        match outcome {
            Ok(p) => {
                let stored = p.clone();
                let ghost before = self.entries@;
                self.entries.push(Entry { key, profile: stored });
                proof {
                    assert(self.entries@.drop_last() =~= before);
                }
                Ok(p)
            },
            Err(e) => Err(e),
        }
    }
}

/// Entries are added, never removed: recording a fetched profile keeps every
/// key that was stored before, and adds at most the fetched key.
pub proof fn lemma_entries_never_removed(
    m: Map<Seq<char>, EnrichedProfile>,
    k: Seq<char>,
    p: EnrichedProfile,
)
    ensures
        m.insert(k, p).dom() == m.dom().insert(k),
        forall|k2: Seq<char>| m.dom().contains(k2) ==> #[trigger] m.insert(k, p).dom().contains(
            k2,
        ),
{
    assert(m.insert(k, p).dom() =~= m.dom().insert(k));
}

/// Memoization of `fetch`: once a profile is stored for a key, a second
/// sequential fetch of that key is a hit and observes exactly the stored
/// profile, so no second remote call is issued for it.
pub proof fn lemma_fetch_memoizes(
    m: Map<Seq<char>, EnrichedProfile>,
    k: Seq<char>,
    p: EnrichedProfile,
)
    ensures
        m.insert(k, p).dom().contains(k),
        m.insert(k, p)[k] == p,
{
}

} // verus!
