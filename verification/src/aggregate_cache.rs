use vstd::prelude::*;

verus! {

/// A 32-byte digest.
pub type Hash = [u8; 32];

/// The committee an aggregate signature was produced under.
pub struct CommitteeSet {
    pub committee_epoch: u64,
}

/// The key of a cached aggregate, as plain values.
pub type AggregateKey = (Seq<u8>, Seq<u8>, u64);

/// Aggregate signatures cached by (view hash, message hash, committee epoch).
pub struct AggregateCache {
    entries: Vec<(Hash, Hash, u64, Vec<u8>)>,
}

pub open spec fn entry_key(e: (Hash, Hash, u64, Vec<u8>)) -> AggregateKey {
    (e.0@, e.1@, e.2)
}

pub open spec fn aggregate_map(s: Seq<(Hash, Hash, u64, Vec<u8>)>) -> Map<AggregateKey, Seq<u8>>
    decreases s.len(),
{
    if s.len() == 0 {
        Map::empty()
    } else {
        aggregate_map(s.drop_last()).insert(entry_key(s.last()), s.last().3@)
    }
}

pub open spec fn aggregate_keys_unique(s: Seq<(Hash, Hash, u64, Vec<u8>)>) -> bool {
    forall|i: int, j: int| 0 <= i < j < s.len() ==> entry_key(s[i]) != entry_key(s[j])
}

proof fn lemma_aggregate_dom(s: Seq<(Hash, Hash, u64, Vec<u8>)>, k: AggregateKey)
    ensures
        aggregate_map(s).contains_key(k) <==> exists|i: int| 0 <= i < s.len() && entry_key(s[i]) == k,
    decreases s.len(),
{
    if s.len() > 0 {
        lemma_aggregate_dom(s.drop_last(), k);
        if entry_key(s.last()) == k {
            assert(entry_key(s[s.len() - 1]) == k);
        }
        if exists|i: int| 0 <= i < s.len() && entry_key(s[i]) == k {
            let i = choose|i: int| 0 <= i < s.len() && entry_key(s[i]) == k;
            if i < s.len() - 1 {
                assert(entry_key(s.drop_last()[i]) == k);
            }
        }
    }
}

proof fn lemma_aggregate_lookup(s: Seq<(Hash, Hash, u64, Vec<u8>)>, i: int)
    requires
        aggregate_keys_unique(s),
        0 <= i < s.len(),
    ensures
        aggregate_map(s).contains_key(entry_key(s[i])),
        aggregate_map(s)[entry_key(s[i])] == s[i].3@,
    decreases s.len(),
{
    if i < s.len() - 1 {
        lemma_aggregate_lookup(s.drop_last(), i);
    }
}

proof fn lemma_aggregate_update(s: Seq<(Hash, Hash, u64, Vec<u8>)>, i: int, e: (Hash, Hash, u64, Vec<u8>))
    requires
        aggregate_keys_unique(s),
        0 <= i < s.len(),
        entry_key(e) == entry_key(s[i]),
    ensures
        aggregate_keys_unique(s.update(i, e)),
        aggregate_map(s.update(i, e)) == aggregate_map(s).insert(entry_key(e), e.3@),
    decreases s.len(),
{
    let t = s.update(i, e);
    if i == s.len() - 1 {
        assert(t.drop_last() =~= s.drop_last());
    } else {
        lemma_aggregate_update(s.drop_last(), i, e);
        assert(t.drop_last() =~= s.drop_last().update(i, e));
        assert(aggregate_map(t) =~= aggregate_map(s).insert(entry_key(e), e.3@));
    }
}

fn hash_eq(a: &Hash, b: &Hash) -> (r: bool)
    ensures
        r == (a@ == b@),
{
    let mut i: usize = 0;
    while i < 32
        invariant
            i <= 32,
            forall|j: int| 0 <= j < i ==> a@[j] == b@[j],
        decreases 32 - i,
    {
        if a[i] != b[i] {
            return false;
        }
        i = i + 1;
    }
    assert(a@ =~= b@);
    true
}

impl AggregateCache {
    #[verifier::type_invariant]
    spec fn unique(self) -> bool {
        aggregate_keys_unique(self.entries@)
    }

    /// The cached aggregates by key.
    pub closed spec fn aggregates(&self) -> Map<AggregateKey, Seq<u8>> {
        aggregate_map(self.entries@)
    }

    pub fn new() -> (c: Self)
        ensures
            c.aggregates() == Map::<AggregateKey, Seq<u8>>::empty(),
    {
        AggregateCache { entries: Vec::new() }
    }

    fn position(&self, view_hash: &Hash, message_hash: &Hash, epoch: u64) -> (r: Option<usize>)
        ensures
            match r {
                Some(i) => i < self.entries@.len() && entry_key(self.entries@[i as int]) == (view_hash@, message_hash@, epoch),
                None => !self.aggregates().contains_key((view_hash@, message_hash@, epoch)),
            },
    {
        let mut i: usize = 0;
        while i < self.entries.len()
            invariant
                i <= self.entries.len(),
                forall|j: int| 0 <= j < i ==> entry_key(self.entries@[j]) != (view_hash@, message_hash@, epoch),
            decreases self.entries.len() - i,
        {
            let e = &self.entries[i];
            if hash_eq(&e.0, view_hash) && hash_eq(&e.1, message_hash) && e.2 == epoch {
                return Some(i);
            }
            i = i + 1;
        }
        proof { lemma_aggregate_dom(self.entries@, (view_hash@, message_hash@, epoch)); }
        None
    }

    /// The aggregate cached for the key, under the committee's epoch.
    pub fn get(&self, view_hash: &Hash, message_hash: &Hash, committee: &CommitteeSet) -> (r: Option<&Vec<u8>>)
        ensures
            ({
                let k = (view_hash@, message_hash@, committee.committee_epoch);
                match r {
                    Some(agg) => self.aggregates().contains_key(k) && agg@ == self.aggregates()[k],
                    None => !self.aggregates().contains_key(k),
                }
            }),
    {
        proof { use_type_invariant(self); }
        match self.position(view_hash, message_hash, committee.committee_epoch) {
            Some(i) => {
                proof { lemma_aggregate_lookup(self.entries@, i as int); }
                Some(&self.entries[i].3)
            },
            None => None,
        }
    }

    /// Caches the aggregate under the key, replacing any earlier one.
    pub fn insert(&mut self, view_hash: Hash, message_hash: Hash, committee: &CommitteeSet, agg: Vec<u8>)
        ensures
            final(self).aggregates() == old(self).aggregates().insert(
                (view_hash@, message_hash@, committee.committee_epoch),
                agg@,
            ),
    {
        proof { use_type_invariant(&*self); }
        let epoch = committee.committee_epoch;
        let found = self.position(&view_hash, &message_hash, epoch);
        let ghost s = self.entries@;
        let mut entries: Vec<(Hash, Hash, u64, Vec<u8>)> = Vec::new();
        std::mem::swap(&mut entries, &mut self.entries);
        let ghost e = (view_hash, message_hash, epoch, agg);
        match found {
            Some(i) => {
                entries.set(i, (view_hash, message_hash, epoch, agg));
                proof {
                    lemma_aggregate_update(s, i as int, e);
                }
            },
            None => {
                entries.push((view_hash, message_hash, epoch, agg));
                proof {
                    let t = entries@;
                    assert(t.drop_last() =~= s);
                    lemma_aggregate_dom(s, entry_key(e));
                    assert forall|a: int, b: int| 0 <= a < b < t.len() implies entry_key(t[a]) != entry_key(t[b]) by {
                        if b == t.len() - 1 {
                            assert(entry_key(s[a]) != entry_key(e));
                        }
                    }
                }
            },
        }
        self.entries = entries;
    }
}

} // verus!
