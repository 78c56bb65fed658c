use vstd::prelude::*;

verus! {

/// A locally discovered user identity: the platform identifier that keys it,
/// an optional display label, an optional last-seen timestamp that orders it,
/// and the name of the mechanism that produced it.
#[derive(Debug, PartialEq, Eq)]
pub struct Identity {
    pub id: String,
    pub label: Option<String>,
    pub last_seen: Option<u64>,
    pub source: String,
}

impl Identity {
    /// The key that orders identities: the last-seen timestamp, with a
    /// missing timestamp counting as zero, the oldest possible.
    pub open spec fn ts(self) -> u64 {
        match self.last_seen {
            Some(t) => t,
            None => 0,
        }
    }

    pub fn timestamp(&self) -> (t: u64)
        ensures
            t == self.ts(),
    {
        match self.last_seen {
            Some(t) => t,
            None => 0,
        }
    }
}

impl Clone for Identity {
    fn clone(&self) -> (res: Self)
        ensures
            res == *self,
    {
        Identity {
            id: self.id.clone(),
            label: match &self.label {
                Some(s) => Some(s.clone()),
                None => None,
            },
            last_seen: self.last_seen,
            source: self.source.clone(),
        }
    }
}

/// The order the cache maintains: timestamps never increase along the list.
pub open spec fn sorted_desc(s: Seq<Identity>) -> bool {
    forall|i: int, j: int| 0 <= i < j < s.len() ==> s[i].ts() >= s[j].ts()
}

/// Where a stable descending insertion places `x`: after every element
/// strictly more recent than `x`, and before every element as recent as `x`
/// or older.
pub open spec fn insert_desc(x: Identity, s: Seq<Identity>) -> Seq<Identity>
    decreases s.len(),
{
    if s.len() == 0 {
        seq![x]
    } else if x.ts() >= s[0].ts() {
        seq![x] + s
    } else {
        seq![s[0]] + insert_desc(x, s.drop_first())
    }
}

/// Stable insertion sort, most recent first. Each element is inserted into
/// the sorted rest of the input, so among equal timestamps the earlier input
/// element keeps its place in front.
pub open spec fn sort_desc(s: Seq<Identity>) -> Seq<Identity>
    decreases s.len(),
{
    if s.len() == 0 {
        Seq::empty()
    } else {
        insert_desc(s[0], sort_desc(s.drop_first()))
    }
}

/// The elements of `s` that carry the timestamp `t`, in their order in `s`.
pub open spec fn ties(s: Seq<Identity>, t: u64) -> Seq<Identity> {
    s.filter(|x: Identity| x.ts() == t)
}

proof fn lemma_insert_desc_len(x: Identity, s: Seq<Identity>)
    ensures
        insert_desc(x, s).len() == s.len() + 1,
    decreases s.len(),
{
    if s.len() > 0 && !(x.ts() >= s[0].ts()) {
        lemma_insert_desc_len(x, s.drop_first());
    }
}

proof fn lemma_insert_desc_elems(x: Identity, s: Seq<Identity>)
    ensures
        forall|k: int|
            0 <= k < insert_desc(x, s).len() ==> insert_desc(x, s)[k] == x || s.contains(
                insert_desc(x, s)[k],
            ),
    decreases s.len(),
{
    if s.len() == 0 {
    } else if x.ts() >= s[0].ts() {
        assert forall|k: int| 0 <= k < insert_desc(x, s).len() implies insert_desc(x, s)[k] == x
            || s.contains(insert_desc(x, s)[k]) by {
            if k > 0 {
                assert(insert_desc(x, s)[k] == s[k - 1]);
            }
        }
    } else {
        let rest = s.drop_first();
        lemma_insert_desc_elems(x, rest);
        assert forall|k: int| 0 <= k < insert_desc(x, s).len() implies insert_desc(x, s)[k] == x
            || s.contains(insert_desc(x, s)[k]) by {
            if k == 0 {
                assert(insert_desc(x, s)[0] == s[0]);
                assert(s.contains(s[0]));
            } else {
                let e = insert_desc(x, s)[k];
                assert(e == insert_desc(x, rest)[k - 1]);
                if e != x {
                    let i = choose|i: int| 0 <= i < rest.len() && rest[i] == e;
                    assert(s[i + 1] == e);
                    assert(s.contains(e));
                }
            }
        }
    }
}

proof fn lemma_insert_desc_sorted(x: Identity, s: Seq<Identity>)
    requires
        sorted_desc(s),
    ensures
        sorted_desc(insert_desc(x, s)),
    decreases s.len(),
{
    if s.len() == 0 {
    } else if x.ts() >= s[0].ts() {
        assert forall|i: int, j: int|
            0 <= i < j < insert_desc(x, s).len() implies insert_desc(x, s)[i].ts() >= insert_desc(
            x,
            s,
        )[j].ts() by {
            if i == 0 {
                assert(insert_desc(x, s)[j] == s[j - 1]);
            } else {
                assert(insert_desc(x, s)[i] == s[i - 1]);
                assert(insert_desc(x, s)[j] == s[j - 1]);
            }
        }
    } else {
        let rest = s.drop_first();
        assert forall|i: int, j: int| 0 <= i < j < rest.len() implies rest[i].ts()
            >= rest[j].ts() by {
            assert(rest[i] == s[i + 1]);
            assert(rest[j] == s[j + 1]);
        }
        lemma_insert_desc_sorted(x, rest);
        lemma_insert_desc_elems(x, rest);
        lemma_insert_desc_len(x, rest);
        assert forall|i: int, j: int|
            0 <= i < j < insert_desc(x, s).len() implies insert_desc(x, s)[i].ts() >= insert_desc(
            x,
            s,
        )[j].ts() by {
            let r = insert_desc(x, s);
            let sub = insert_desc(x, rest);
            if i == 0 {
                assert(r[0] == s[0]);
                assert(r[j] == sub[j - 1]);
                if sub[j - 1] == x {
                    assert(s[0].ts() > x.ts());
                } else {
                    let m = choose|m: int| 0 <= m < rest.len() && rest[m] == sub[j - 1];
                    assert(s[m + 1] == sub[j - 1]);
                    assert(s[0].ts() >= s[m + 1].ts());
                }
            } else {
                assert(r[i] == sub[i - 1]);
                assert(r[j] == sub[j - 1]);
            }
        }
    }
}

proof fn lemma_filter_singleton(x: Identity, t: u64)
    ensures
        ties(seq![x], t) == if x.ts() == t {
            seq![x]
        } else {
            Seq::<Identity>::empty()
        },
{
    reveal_with_fuel(Seq::filter, 2);
    assert(seq![x].drop_last() =~= Seq::<Identity>::empty());
    if x.ts() == t {
        assert(ties(seq![x], t) =~= seq![x]);
    } else {
        assert(ties(seq![x], t) =~= Seq::<Identity>::empty());
    }
}

proof fn lemma_insert_desc_ties(x: Identity, s: Seq<Identity>, t: u64)
    ensures
        ties(insert_desc(x, s), t) == if x.ts() == t {
            seq![x] + ties(s, t)
        } else {
            ties(s, t)
        },
    decreases s.len(),
{
    broadcast use vstd::seq_lib::group_seq_lib_default;

    lemma_filter_singleton(x, t);
    if s.len() == 0 {
        reveal(Seq::filter);
        assert(ties(s, t) =~= Seq::<Identity>::empty());
        if x.ts() == t {
            assert(seq![x] + ties(s, t) =~= seq![x]);
        }
    } else if x.ts() >= s[0].ts() {
        assert(ties(seq![x] + s, t) == ties(seq![x], t) + ties(s, t));
        if x.ts() != t {
            assert(Seq::<Identity>::empty() + ties(s, t) =~= ties(s, t));
        }
    } else {
        let rest = s.drop_first();
        lemma_insert_desc_ties(x, rest, t);
        lemma_filter_singleton(s[0], t);
        assert(s =~= seq![s[0]] + rest);
        assert(ties(s, t) == ties(seq![s[0]], t) + ties(rest, t));
        assert(ties(insert_desc(x, s), t) == ties(seq![s[0]], t) + ties(insert_desc(x, rest), t));
        if x.ts() == t {
            assert(s[0].ts() > x.ts());
            assert(ties(seq![s[0]], t) =~= Seq::<Identity>::empty());
            assert(ties(seq![s[0]], t) + (seq![x] + ties(rest, t)) =~= seq![x] + (ties(seq![s[0]], t)
                + ties(rest, t)));
        } else {
            assert(ties(seq![s[0]], t) + ties(insert_desc(x, rest), t) =~= ties(seq![s[0]], t)
                + ties(rest, t));
        }
    }
}

/// Sorting never loses or invents an element: the output length matches.
pub proof fn lemma_sort_desc_len(s: Seq<Identity>)
    ensures
        sort_desc(s).len() == s.len(),
    decreases s.len(),
{
    if s.len() > 0 {
        lemma_sort_desc_len(s.drop_first());
        lemma_insert_desc_len(s[0], sort_desc(s.drop_first()));
    }
}

/// The sorted view is ordered by timestamp descending: most recent first.
pub proof fn lemma_sort_desc_sorted(s: Seq<Identity>)
    ensures
        sorted_desc(sort_desc(s)),
    decreases s.len(),
{
    if s.len() > 0 {
        lemma_sort_desc_sorted(s.drop_first());
        lemma_insert_desc_sorted(s[0], sort_desc(s.drop_first()));
    }
}

/// Stability: among the elements of one timestamp, sorting keeps the input's
/// relative order — the subsequence of any timestamp `t` is unchanged.
pub proof fn lemma_sort_desc_stable(s: Seq<Identity>, t: u64)
    ensures
        ties(sort_desc(s), t) == ties(s, t),
    decreases s.len(),
{
    broadcast use vstd::seq_lib::group_seq_lib_default;

    if s.len() == 0 {
        reveal(Seq::filter);
    } else {
        let rest = s.drop_first();
        lemma_sort_desc_stable(rest, t);
        lemma_insert_desc_ties(s[0], sort_desc(rest), t);
        lemma_filter_singleton(s[0], t);
        assert(s =~= seq![s[0]] + rest);
        assert(ties(s, t) == ties(seq![s[0]], t) + ties(rest, t));
        if s[0].ts() == t {
            assert(ties(seq![s[0]], t) + ties(rest, t) =~= seq![s[0]] + ties(rest, t));
        } else {
            assert(ties(seq![s[0]], t) + ties(rest, t) =~= ties(rest, t));
        }
    }
}

proof fn lemma_insert_desc_multiset(x: Identity, s: Seq<Identity>)
    ensures
        insert_desc(x, s).to_multiset() == s.to_multiset().insert(x),
    decreases s.len(),
{
    broadcast use vstd::seq_lib::group_to_multiset_ensures;
    broadcast use vstd::seq_lib::lemma_multiset_commutative;

    if s.len() == 0 {
        assert(seq![x] =~= s.push(x));
        assert(s.push(x).to_multiset() =~= s.to_multiset().insert(x));
    } else if x.ts() >= s[0].ts() {
        assert(seq![x] =~= Seq::<Identity>::empty().push(x));
        assert((seq![x] + s).to_multiset() =~= seq![x].to_multiset().add(s.to_multiset()));
        assert(seq![x].to_multiset().add(s.to_multiset()) =~= s.to_multiset().insert(x));
    } else {
        let rest = s.drop_first();
        lemma_insert_desc_multiset(x, rest);
        assert(s =~= seq![s[0]] + rest);
        assert((seq![s[0]] + rest).to_multiset() =~= seq![s[0]].to_multiset().add(
            rest.to_multiset(),
        ));
        assert((seq![s[0]] + insert_desc(x, rest)).to_multiset()
            =~= seq![s[0]].to_multiset().add(insert_desc(x, rest).to_multiset()));
        assert(seq![s[0]].to_multiset().add(rest.to_multiset().insert(x))
            =~= (seq![s[0]].to_multiset().add(rest.to_multiset())).insert(x));
    }
}

/// Sorting is a permutation and nothing more: the identities of the output
/// are exactly those of the input, duplicates counted.
pub proof fn lemma_sort_desc_multiset(s: Seq<Identity>)
    ensures
        sort_desc(s).to_multiset() == s.to_multiset(),
    decreases s.len(),
{
    broadcast use vstd::seq_lib::group_to_multiset_ensures;
    broadcast use vstd::seq_lib::lemma_multiset_commutative;

    if s.len() > 0 {
        let rest = s.drop_first();
        lemma_sort_desc_multiset(rest);
        lemma_insert_desc_multiset(s[0], sort_desc(rest));
        assert(s =~= seq![s[0]] + rest);
        assert((seq![s[0]] + rest).to_multiset() =~= seq![s[0]].to_multiset().add(
            rest.to_multiset(),
        ));
        assert(seq![s[0]] =~= Seq::<Identity>::empty().push(s[0]));
        assert(seq![s[0]].to_multiset().add(rest.to_multiset()) =~= rest.to_multiset().insert(
            s[0],
        ));
    }
}

proof fn lemma_insert_desc_at(x: Identity, s: Seq<Identity>, j: int)
    requires
        0 <= j <= s.len(),
        forall|k: int| 0 <= k < j ==> s[k].ts() > x.ts(),
        j < s.len() ==> x.ts() >= s[j].ts(),
    ensures
        insert_desc(x, s) == s.subrange(0, j) + seq![x] + s.subrange(j, s.len() as int),
    decreases s.len(),
{
    if s.len() == 0 {
        assert(insert_desc(x, s) =~= s.subrange(0, 0) + seq![x] + s.subrange(0, 0));
    } else if j == 0 {
        assert(x.ts() >= s[0].ts());
        assert(insert_desc(x, s) =~= s.subrange(0, 0) + seq![x] + s.subrange(0, s.len() as int));
    } else {
        let rest = s.drop_first();
        assert(s[0].ts() > x.ts());
        assert forall|k: int| 0 <= k < j - 1 implies rest[k].ts() > x.ts() by {
            assert(rest[k] == s[k + 1]);
        }
        lemma_insert_desc_at(x, rest, j - 1);
        assert(insert_desc(x, s) == seq![s[0]] + (rest.subrange(0, j - 1) + seq![x] + rest.subrange(
            j - 1,
            rest.len() as int,
        )));
        assert(seq![s[0]] + (rest.subrange(0, j - 1) + seq![x] + rest.subrange(
            j - 1,
            rest.len() as int,
        )) =~= s.subrange(0, j) + seq![x] + s.subrange(j, s.len() as int));
    }
}

/// Inserts `x` into the sorted vector at its stable descending position.
fn insert_identity(r: &mut Vec<Identity>, x: Identity)
    ensures
        final(r)@ == insert_desc(x, old(r)@),
{
    let ghost s = r@;
    let xt = x.timestamp();
    let mut j: usize = 0;
    while j < r.len() && r[j].timestamp() > xt
        invariant
            0 <= j <= r@.len(),
            r@ == s,
            xt == x.ts(),
            forall|k: int| 0 <= k < j ==> s[k].ts() > x.ts(),
        decreases r@.len() - j,
    {
        j = j + 1;
    }
    proof {
        lemma_insert_desc_at(x, s, j as int);
        assert(s.subrange(0, j as int) + seq![x] + s.subrange(j as int, s.len() as int)
            =~= s.insert(j as int, x));
    }
    r.insert(j, x);
}

/// Sorts the identities most recent first with a stable insertion sort; the
/// result is exactly the stable descending ordering of the input.
pub fn sort_identities(v: &Vec<Identity>) -> (r: Vec<Identity>)
    ensures
        r@ == sort_desc(v@),
{
    let n = v.len();
    let mut r: Vec<Identity> = Vec::new();
    let mut i: usize = n;
    while i > 0
        invariant
            0 <= i <= n,
            n == v@.len(),
            r@ == sort_desc(v@.subrange(i as int, n as int)),
        decreases i,
    {
        i = i - 1;
        let x = v[i].clone();
        proof {
            let tail = v@.subrange(i as int, n as int);
            assert(tail.drop_first() =~= v@.subrange(i as int + 1, n as int));
            assert(tail[0] == v@[i as int]);
        }
        insert_identity(&mut r, x);
    }
    proof {
        assert(v@.subrange(0, n as int) =~= v@);
    }
    r
}

} // verus!
