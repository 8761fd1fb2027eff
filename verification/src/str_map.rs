use vstd::prelude::*;

verus! {

/// No two entries of `s` share a key.
pub open spec fn keys_unique<V>(s: Seq<(String, V)>) -> bool {
    forall|i: int, j: int| 0 <= i < j < s.len() ==> s[i].0@ != s[j].0@
}

/// The map that the entries of `s` describe.
pub open spec fn assoc_map<V>(s: Seq<(String, V)>) -> Map<Seq<char>, V>
    decreases s.len(),
{
    if s.len() == 0 {
        Map::empty()
    } else {
        assoc_map(s.drop_last()).insert(s.last().0@, s.last().1)
    }
}

/// The position of the entry with key `k`, if any.
pub open spec fn key_position<V>(s: Seq<(String, V)>, k: Seq<char>, i: int) -> bool {
    0 <= i < s.len() && s[i].0@ == k
}

/// A key is in the described map exactly when some entry carries it.
pub proof fn lemma_assoc_dom<V>(s: Seq<(String, V)>, k: Seq<char>)
    ensures
        assoc_map(s).contains_key(k) <==> exists|i: int| key_position(s, k, i),
    decreases s.len(),
{
    if s.len() > 0 {
        lemma_assoc_dom(s.drop_last(), k);
        if s.last().0@ == k {
            assert(key_position(s, k, s.len() - 1));
        }
        if assoc_map(s.drop_last()).contains_key(k) {
            let i = choose|i: int| key_position(s.drop_last(), k, i);
            assert(key_position(s, k, i));
        }
        if exists|i: int| key_position(s, k, i) {
            let i = choose|i: int| key_position(s, k, i);
            if i < s.len() - 1 {
                assert(key_position(s.drop_last(), k, i));
            }
        }
    }
}

/// With distinct keys, each entry's value is what the map holds for its key.
pub proof fn lemma_assoc_lookup<V>(s: Seq<(String, V)>, i: int)
    requires
        keys_unique(s),
        0 <= i < s.len(),
    ensures
        assoc_map(s).contains_key(s[i].0@),
        assoc_map(s)[s[i].0@] == s[i].1,
    decreases s.len(),
{
    if i < s.len() - 1 {
        lemma_assoc_lookup(s.drop_last(), i);
    }
}

/// The described map is finite, with one key per entry when keys are
/// distinct.
pub proof fn lemma_assoc_finite<V>(s: Seq<(String, V)>)
    ensures
        assoc_map(s).dom().finite(),
        keys_unique(s) ==> assoc_map(s).dom().len() == s.len(),
    decreases s.len(),
{
    if s.len() > 0 {
        lemma_assoc_finite(s.drop_last());
        if keys_unique(s) {
            lemma_assoc_dom(s.drop_last(), s.last().0@);
            if assoc_map(s.drop_last()).contains_key(s.last().0@) {
                let i = choose|i: int| key_position(s.drop_last(), s.last().0@, i);
                assert(s[i].0@ == s[s.len() - 1].0@);
            }
        }
    }
}

/// Replacing an entry's value keeps the keys distinct and updates the map
/// at that key.
pub proof fn lemma_assoc_update<V>(s: Seq<(String, V)>, i: int, v: V)
    requires
        keys_unique(s),
        0 <= i < s.len(),
    ensures
        keys_unique(s.update(i, (s[i].0, v))),
        assoc_map(s.update(i, (s[i].0, v))) == assoc_map(s).insert(s[i].0@, v),
    decreases s.len(),
{
    let t = s.update(i, (s[i].0, v));
    if i == s.len() - 1 {
        assert(t.drop_last() =~= s.drop_last());
    } else {
        lemma_assoc_update(s.drop_last(), i, v);
        assert(t.drop_last() =~= s.drop_last().update(i, (s[i].0, v)));
        assert(assoc_map(t) =~= assoc_map(s).insert(s[i].0@, v));
    }
}

/// Removing an entry keeps the keys distinct and removes its key from the
/// map.
pub proof fn lemma_assoc_remove<V>(s: Seq<(String, V)>, i: int)
    requires
        keys_unique(s),
        0 <= i < s.len(),
    ensures
        keys_unique(s.remove(i)),
        assoc_map(s.remove(i)) == assoc_map(s).remove(s[i].0@),
    decreases s.len(),
{
    let t = s.remove(i);
    assert forall|a: int, b: int| 0 <= a < b < t.len() implies t[a].0@ != t[b].0@ by {
        let a2 = if a < i { a } else { a + 1 };
        let b2 = if b < i { b } else { b + 1 };
        assert(t[a] == s[a2] && t[b] == s[b2]);
    }
    if i == s.len() - 1 {
        assert(t =~= s.drop_last());
        lemma_assoc_dom(s.drop_last(), s[i].0@);
        if assoc_map(s.drop_last()).contains_key(s[i].0@) {
            let j = choose|j: int| key_position(s.drop_last(), s[i].0@, j);
            assert(s[j].0@ == s[i].0@);
        }
        assert(assoc_map(t) =~= assoc_map(s).remove(s[i].0@));
    } else {
        lemma_assoc_remove(s.drop_last(), i);
        assert(t.drop_last() =~= s.drop_last().remove(i));
        assert(t.last() == s.last());
        assert(assoc_map(t) =~= assoc_map(s).remove(s[i].0@));
    }
}

/// A map keyed by strings that keeps its entries in insertion order.
pub struct StrMap<V> {
    entries: Vec<(String, V)>,
}

impl<V> StrMap<V> {
    #[verifier::type_invariant]
    spec fn unique(self) -> bool {
        keys_unique(self.entries@)
    }

    /// The entries, in insertion order.
    pub closed spec fn entries(self) -> Seq<(String, V)> {
        self.entries@
    }

    /// The map that the entries describe.
    pub open spec fn view_map(self) -> Map<Seq<char>, V> {
        assoc_map(self.entries())
    }

    pub fn new() -> (m: Self)
        ensures
            m.entries() == Seq::<(String, V)>::empty(),
            m.view_map() == Map::<Seq<char>, V>::empty(),
    {
        StrMap { entries: Vec::new() }
    }

    pub fn len(&self) -> (n: usize)
        ensures
            n == self.entries().len(),
            n == self.view_map().dom().len(),
            self.view_map().dom().finite(),
            keys_unique(self.entries()),
    {
        proof {
            use_type_invariant(self);
            lemma_assoc_finite(self.entries@);
        }
        self.entries.len()
    }

    /// The position of the entry with key `k`.
    pub fn position(&self, k: &String) -> (r: Option<usize>)
        ensures
            match r {
                Some(i) => key_position(self.entries(), k@, i as int),
                None => !self.view_map().contains_key(k@),
            },
            r is Some <==> self.view_map().contains_key(k@),
    {
        let mut i: usize = 0;
        while i < self.entries.len()
            invariant
                i <= self.entries.len(),
                forall|j: int| 0 <= j < i ==> self.entries@[j].0@ != k@,
            decreases self.entries.len() - i,
        {
            if self.entries[i].0 == *k {
                proof {
                    lemma_assoc_dom(self.entries@, k@);
                    assert(key_position(self.entries@, k@, i as int));
                }
                return Some(i);
            }
            i = i + 1;
        }
        proof { lemma_assoc_dom(self.entries@, k@); }
        None
    }

    pub fn contains_key(&self, k: &String) -> (b: bool)
        ensures
            b == self.view_map().contains_key(k@),
    {
        self.position(k).is_some()
    }

    pub fn get(&self, k: &String) -> (r: Option<&V>)
        ensures
            match r {
                Some(v) => self.view_map().contains_key(k@) && *v == self.view_map()[k@],
                None => !self.view_map().contains_key(k@),
            },
    {
        proof { use_type_invariant(self); }
        match self.position(k) {
            Some(i) => {
                proof { lemma_assoc_lookup(self.entries@, i as int); }
                Some(&self.entries[i].1)
            },
            None => None,
        }
    }

    pub fn key_at(&self, i: usize) -> (k: &String)
        requires
            i < self.entries().len(),
        ensures
            *k == self.entries()[i as int].0,
            self.view_map().contains_key(k@),
            self.view_map()[k@] == self.entries()[i as int].1,
    {
        proof {
            use_type_invariant(self);
            lemma_assoc_lookup(self.entries@, i as int);
        }
        &self.entries[i].0
    }

    pub fn value_at(&self, i: usize) -> (v: &V)
        requires
            i < self.entries().len(),
        ensures
            *v == self.entries()[i as int].1,
            self.view_map().contains_key(self.entries()[i as int].0@),
            self.view_map()[self.entries()[i as int].0@] == *v,
    {
        proof {
            use_type_invariant(self);
            lemma_assoc_lookup(self.entries@, i as int);
        }
        &self.entries[i].1
    }

    /// Sets the value of `k`: an existing entry keeps its place, a new one
    /// goes last.
    pub fn insert(&mut self, k: String, v: V)
        ensures
            final(self).view_map() == old(self).view_map().insert(k@, v),
            keys_unique(old(self).entries()),
            keys_unique(final(self).entries()),
            old(self).view_map().contains_key(k@) ==> final(self).entries().len() == old(self).entries().len(),
            old(self).view_map().contains_key(k@) ==> exists|i: int| key_position(old(self).entries(), k@, i)
                && final(self).entries() == old(self).entries().update(i, (old(self).entries()[i].0, v)),
            !old(self).view_map().contains_key(k@) ==> final(self).entries() == old(self).entries().push((k, v)),
    {
        proof { use_type_invariant(&*self); }
        match self.position(&k) {
            Some(i) => {
                let ghost s = self.entries@;
                let mut entries: Vec<(String, V)> = Vec::new();
                std::mem::swap(&mut entries, &mut self.entries);
                let key = entries[i].0.clone();
                entries.set(i, (key, v));
                proof {
                    lemma_assoc_update(s, i as int, v);
                    assert(entries@ =~= s.update(i as int, (s[i as int].0, v)));
                }
                self.entries = entries;
            },
            None => {
                let ghost s = self.entries@;
                let mut entries: Vec<(String, V)> = Vec::new();
                std::mem::swap(&mut entries, &mut self.entries);
                entries.push((k, v));
                proof {
                    lemma_assoc_dom(s, k@);
                    let t = entries@;
                    assert(t.drop_last() =~= s);
                    assert forall|a: int, b: int| 0 <= a < b < t.len() implies t[a].0@ != t[b].0@ by {
                        if b == t.len() - 1 {
                            assert(!key_position(s, k@, a));
                        }
                    }
                }
                self.entries = entries;
            },
        }
    }

    /// Removes the entry of `k` and hands back its value; the others keep
    /// their order.
    pub fn remove(&mut self, k: &String) -> (r: Option<V>)
        ensures
            final(self).view_map() == old(self).view_map().remove(k@),
            match r {
                Some(v) => old(self).view_map().contains_key(k@) && v == old(self).view_map()[k@]
                    && exists|i: int| key_position(old(self).entries(), k@, i)
                        && final(self).entries() == old(self).entries().remove(i),
                None => !old(self).view_map().contains_key(k@) && final(self).entries() == old(self).entries(),
            },
    {
        proof { use_type_invariant(&*self); }
        match self.position(k) {
            Some(i) => {
                let ghost s = self.entries@;
                let mut entries: Vec<(String, V)> = Vec::new();
                std::mem::swap(&mut entries, &mut self.entries);
                let (_, v) = entries.remove(i);
                proof {
                    lemma_assoc_remove(s, i as int);
                    lemma_assoc_lookup(s, i as int);
                }
                self.entries = entries;
                Some(v)
            },
            None => {
                proof {
                    assert(old(self).view_map().remove(k@) =~= old(self).view_map());
                }
                None
            },
        }
    }

    /// Replaces the value at position `i`, keeping its key.
    pub fn set_value_at(&mut self, i: usize, v: V)
        requires
            i < old(self).entries().len(),
        ensures
            final(self).entries() == old(self).entries().update(i as int, (old(self).entries()[i as int].0, v)),
            final(self).view_map() == old(self).view_map().insert(old(self).entries()[i as int].0@, v),
    {
        proof { use_type_invariant(&*self); }
        let ghost s = self.entries@;
        let mut entries: Vec<(String, V)> = Vec::new();
        std::mem::swap(&mut entries, &mut self.entries);
        let key = entries[i].0.clone();
        entries.set(i, (key, v));
        proof {
            lemma_assoc_update(s, i as int, v);
            assert(entries@ =~= s.update(i as int, (s[i as int].0, v)));
        }
        self.entries = entries;
    }
}

} // verus!
