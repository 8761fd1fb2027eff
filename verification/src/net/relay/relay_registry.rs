use vstd::prelude::*;

use crate::attestation::crypto::{ed25519_key_decodes, ed25519_key_valid};
use crate::clock::now_secs;
use crate::net::relay::endpoint_cache::EndpointCache;
use crate::str_map::StrMap;

verus! {

/// Information about a registered relay.
#[derive(Debug, Clone)]
pub struct RelayInfo {
    pub relay_id: String,
    /// The relay's Ed25519 public key, raw bytes.
    pub public_key_bytes: Vec<u8>,
    /// Unix time of registration, in seconds.
    pub registered_at: u64,
    pub active: bool,
}

impl RelayInfo {
    pub fn duplicate(&self) -> (r: Self)
        ensures
            r.relay_id == self.relay_id,
            r.public_key_bytes@ == self.public_key_bytes@,
            r.registered_at == self.registered_at,
            r.active == self.active,
    {
        RelayInfo {
            relay_id: self.relay_id.clone(),
            public_key_bytes: self.public_key_bytes.clone(),
            registered_at: self.registered_at,
            active: self.active,
        }
    }
}

/// Whether the key of `info` is put in an endpoint cache on a sync: the
/// relay is active and its bytes decode to a key.
pub open spec fn syncable(info: RelayInfo) -> bool {
    &&& info.active
    &&& info.public_key_bytes@.len() == 32
    &&& ed25519_key_decodes(info.public_key_bytes@)
}

/// Whether `after` is `before` made inactive.
pub open spec fn deactivated(before: RelayInfo, after: RelayInfo) -> bool {
    &&& after.relay_id == before.relay_id
    &&& after.public_key_bytes@ == before.public_key_bytes@
    &&& after.registered_at == before.registered_at
    &&& !after.active
}


/// Whether one of the first `n` relays of `s` is `k`.
pub open spec fn relay_seen(s: Seq<(String, RelayInfo)>, k: Seq<char>, n: int) -> bool {
    exists|j: int| 0 <= j < n && s[j].0@ == k
}

proof fn lemma_relay_seen_step(s: Seq<(String, RelayInfo)>, t: Seq<char>, i: int)
    requires
        0 <= i < s.len(),
    ensures
        relay_seen(s, t, i + 1) <==> relay_seen(s, t, i) || s[i].0@ == t,
{
    if relay_seen(s, t, i + 1) {
        let j = choose|j: int| 0 <= j < i + 1 && s[j].0@ == t;
        if j < i {
            assert(relay_seen(s, t, i));
        }
    }
    if relay_seen(s, t, i) {
        let j = choose|j: int| 0 <= j < i && s[j].0@ == t;
        assert(0 <= j < i + 1 && s[j].0@ == t);
    }
    if s[i].0@ == t {
        assert(0 <= i < i + 1 && s[i].0@ == t);
    }
}

/// The active relays among `s`, in order.
pub open spec fn active_infos(s: Seq<(String, RelayInfo)>) -> Seq<RelayInfo>
    decreases s.len(),
{
    if s.len() == 0 {
        Seq::empty()
    } else {
        let rest = active_infos(s.drop_last());
        if s.last().1.active { rest.push(s.last().1) } else { rest }
    }
}

/// Registry of known relay nodes: the source of truth for which relays are
/// authorized.
pub struct RelayRegistry {
    relays: StrMap<RelayInfo>,
}

impl Default for RelayRegistry {
    fn default() -> (r: Self)
        ensures
            r.relays() == Map::<Seq<char>, RelayInfo>::empty(),
    {
        RelayRegistry::new()
    }
}

impl RelayRegistry {
    /// Each relay is stored under its own identifier.
    #[verifier::type_invariant]
    spec fn ids_match(self) -> bool {
        forall|k: Seq<char>| #[trigger] self.relays.view_map().contains_key(k) ==> self.relays.view_map()[k].relay_id@ == k
    }

    /// The registered relays by identifier.
    pub closed spec fn relays(&self) -> Map<Seq<char>, RelayInfo> {
        self.relays.view_map()
    }

    /// The identifiers of the active relays.
    pub open spec fn active_ids(&self) -> Set<Seq<char>> {
        self.relays().dom().filter(|k: Seq<char>| self.relays()[k].active)
    }

    /// The registered relays in registration order.
    pub closed spec fn relay_entries(&self) -> Seq<(String, RelayInfo)> {
        self.relays.entries()
    }

    pub fn new() -> (r: Self)
        ensures
            r.relays() == Map::<Seq<char>, RelayInfo>::empty(),
            r.relay_entries().len() == 0,
    {
        RelayRegistry { relays: StrMap::new() }
    }

    /// Registers an active relay with its key bytes at `now` (seconds).
    pub fn register_relay_at(&mut self, relay_id: &str, public_key_bytes: Vec<u8>, now: u64) -> (info: RelayInfo)
        ensures
            final(self).relays().dom() == old(self).relays().dom().insert(relay_id@),
            info.relay_id@ == relay_id@,
            info.public_key_bytes@ == public_key_bytes@,
            info.registered_at == now,
            info.active,
            final(self).relays().contains_key(relay_id@),
            final(self).relays() == old(self).relays().insert(relay_id@, final(self).relays()[relay_id@]),
            final(self).relays()[relay_id@].relay_id@ == relay_id@,
            final(self).relays()[relay_id@].public_key_bytes@ == public_key_bytes@,
            final(self).relays()[relay_id@].registered_at == now,
            final(self).relays()[relay_id@].active,
    {
        let info = RelayInfo {
            relay_id: relay_id.to_owned(),
            public_key_bytes,
            registered_at: now,
            active: true,
        };
        let stored = info.duplicate();
        proof { use_type_invariant(&*self); }
        let mut relays: StrMap<RelayInfo> = StrMap::new();
        std::mem::swap(&mut relays, &mut self.relays);
        relays.insert(relay_id.to_owned(), stored);
        self.relays = relays;
        info
    }

    /// Registers an active relay with its encoded public key, at the clock's
    /// reading; every other relay stays as it was.
    pub fn register_relay(&mut self, relay_id: &str, public_key: &[u8; 32]) -> (info: RelayInfo)
        ensures
            info.relay_id@ == relay_id@,
            info.public_key_bytes@ == public_key@,
            info.active,
            final(self).relays().dom() == old(self).relays().dom().insert(relay_id@),
            final(self).relays() == old(self).relays().insert(relay_id@, final(self).relays()[relay_id@]),
            final(self).relays()[relay_id@].relay_id@ == relay_id@,
            final(self).relays()[relay_id@].public_key_bytes@ == public_key@,
            final(self).relays()[relay_id@].registered_at == info.registered_at,
            final(self).relays()[relay_id@].active,
    {
        let bytes = vstd::slice::slice_to_vec(public_key.as_slice());
        self.register_relay_at(relay_id, bytes, now_secs())
    }

    /// Deactivates a relay.
    pub fn deactivate_relay(&mut self, relay_id: &str)
        ensures
            old(self).relays().contains_key(relay_id@) ==> {
                &&& final(self).relays() == old(self).relays().insert(relay_id@, final(self).relays()[relay_id@])
                &&& deactivated(old(self).relays()[relay_id@], final(self).relays()[relay_id@])
            },
            !old(self).relays().contains_key(relay_id@) ==> final(self).relays() == old(self).relays(),
    {
        proof { use_type_invariant(&*self); }
        let id = relay_id.to_owned();
        match self.relays.position(&id) {
            Some(i) => {
                let current = self.relays.value_at(i);
                let updated = RelayInfo {
                    relay_id: current.relay_id.clone(),
                    public_key_bytes: current.public_key_bytes.clone(),
                    registered_at: current.registered_at,
                    active: false,
                };
                let mut relays: StrMap<RelayInfo> = StrMap::new();
                std::mem::swap(&mut relays, &mut self.relays);
                relays.set_value_at(i, updated);
                self.relays = relays;
            },
            None => {},
        }
    }

    /// Whether the relay is registered and active.
    pub fn is_active(&self, relay_id: &str) -> (b: bool)
        ensures
            b == (self.relays().contains_key(relay_id@) && self.relays()[relay_id@].active),
    {
        match self.relays.get(&relay_id.to_owned()) {
            Some(info) => info.active,
            None => false,
        }
    }

    pub fn get_relay(&self, relay_id: &str) -> (r: Option<&RelayInfo>)
        ensures
            match r {
                Some(info) => self.relays().contains_key(relay_id@) && *info == self.relays()[relay_id@],
                None => !self.relays().contains_key(relay_id@),
            },
    {
        self.relays.get(&relay_id.to_owned())
    }

    /// The active relays, in registration order: each stored relay that is
    /// active appears exactly once, and no other.
    pub fn active_relays(&self) -> (r: Vec<&RelayInfo>)
        ensures
            forall|j: int| 0 <= j < r@.len() ==> {
                &&& self.relays().contains_key((#[trigger] r@[j]).relay_id@)
                &&& self.relays()[r@[j].relay_id@] == *r@[j]
                &&& r@[j].active
            },
            forall|a: int, b: int| 0 <= a < b < r@.len() ==> r@[a].relay_id@ != r@[b].relay_id@,
            forall|k: Seq<char>| #[trigger] self.relays().contains_key(k) && self.relays()[k].active
                ==> exists|j: int| 0 <= j < r@.len() && r@[j].relay_id@ == k,
            r@.len() == self.active_ids().len(),
            r@.len() == active_infos(self.relay_entries()).len(),
            forall|j: int| 0 <= j < r@.len() ==> *r@[j] == active_infos(self.relay_entries())[j],
    {
        proof { use_type_invariant(self); }
        let n = self.relays.len();
        let ghost entries = self.relay_entries();
        let mut out: Vec<&RelayInfo> = Vec::new();
        let ghost mut pos: Seq<int> = Seq::empty();
        let mut i: usize = 0;
        while i < n
            invariant
                i <= n,
                n == entries.len(),
                entries == self.relay_entries(),
                crate::str_map::keys_unique(entries),
                forall|k: Seq<char>| #[trigger] self.relays().contains_key(k) ==> self.relays()[k].relay_id@ == k,
                out@.len() == active_infos(entries.take(i as int)).len(),
                forall|j: int| 0 <= j < out@.len() ==> *out@[j] == active_infos(entries.take(i as int))[j],
                pos.len() == out@.len(),
                forall|j: int| 0 <= j < pos.len() ==> 0 <= #[trigger] pos[j] < i && entries[pos[j]].1 == *out@[j],
                forall|a: int, b: int| 0 <= a < b < pos.len() ==> pos[a] < pos[b],
                forall|m: int| 0 <= m < i && (#[trigger] entries[m]).1.active ==> exists|j: int| 0 <= j < pos.len() && pos[j] == m,
                forall|j: int| 0 <= j < out@.len() ==> (#[trigger] out@[j]).active,
            decreases n - i,
        {
            assert(entries.take(i + 1).drop_last() =~= entries.take(i as int));
            let info = self.relays.value_at(i);
            let ghost old_pos = pos;
            if info.active {
                out.push(info);
                proof { pos = pos.push(i as int); }
            }
            proof {
                assert forall|m: int| 0 <= m < i + 1 && (#[trigger] entries[m]).1.active
                    implies exists|j: int| 0 <= j < pos.len() && pos[j] == m by {
                    if m == i {
                        assert(pos[pos.len() - 1] == m);
                    } else {
                        let j = choose|j: int| 0 <= j < old_pos.len() && old_pos[j] == m;
                        assert(pos[j] == m);
                    }
                }
            }
            i = i + 1;
        }
        assert(entries.take(n as int) =~= entries);
        proof {
            assert forall|j: int| 0 <= j < out@.len() implies {
                &&& self.relays().contains_key((#[trigger] out@[j]).relay_id@)
                &&& self.relays()[out@[j].relay_id@] == *out@[j]
                &&& out@[j].active
            } by {
                let m = pos[j];
                crate::str_map::lemma_assoc_lookup(entries, m);
                assert(self.relays()[entries[m].0@] == entries[m].1);
                assert(entries[m].1.relay_id@ == entries[m].0@);
            }
            assert forall|a: int, b: int| 0 <= a < b < out@.len() implies out@[a].relay_id@ != out@[b].relay_id@ by {
                let ma = pos[a];
                let mb = pos[b];
                crate::str_map::lemma_assoc_lookup(entries, ma);
                crate::str_map::lemma_assoc_lookup(entries, mb);
                assert(entries[ma].1.relay_id@ == entries[ma].0@);
                assert(entries[mb].1.relay_id@ == entries[mb].0@);
            }
            assert forall|k: Seq<char>| #[trigger] self.relays().contains_key(k) && self.relays()[k].active
                implies exists|j: int| 0 <= j < out@.len() && out@[j].relay_id@ == k by {
                crate::str_map::lemma_assoc_dom(entries, k);
                let m = choose|m: int| crate::str_map::key_position(entries, k, m);
                crate::str_map::lemma_assoc_lookup(entries, m);
                assert(entries[m].1.active);
                let j = choose|j: int| 0 <= j < pos.len() && pos[j] == m;
                assert(out@[j].relay_id@ == k);
            }
            let ids = Seq::new(out@.len(), |j: int| out@[j].relay_id@);
            assert(ids.no_duplicates());
            assert(ids.to_set() =~= self.active_ids()) by {
                assert forall|k: Seq<char>| ids.to_set().contains(k) implies self.active_ids().contains(k) by {
                    let j = choose|j: int| 0 <= j < ids.len() && ids[j] == k;
                    assert(self.relays().contains_key(out@[j].relay_id@));
                }
                assert forall|k: Seq<char>| self.active_ids().contains(k) implies ids.to_set().contains(k) by {
                    assert(self.relays().contains_key(k) && self.relays()[k].active);
                    let j = choose|j: int| 0 <= j < out@.len() && out@[j].relay_id@ == k;
                    assert(ids[j] == k);
                }
            }
            ids.unique_seq_to_set();
        }
        out
    }

    /// The relay keys a sync puts in a cache.
    pub open spec fn synced_keys(&self) -> Map<Seq<char>, Seq<u8>> {
        Map::new(
            |k: Seq<char>| self.relays().contains_key(k) && syncable(self.relays()[k]),
            |k: Seq<char>| self.relays()[k].public_key_bytes@,
        )
    }

    /// Registers the key of every active relay whose key bytes decode in
    /// `cache`.
    pub fn sync_to_cache(&self, cache: &mut EndpointCache)
        ensures
            final(cache).keys() == old(cache).keys().union_prefer_right(self.synced_keys()),
            final(cache).lists() == old(cache).lists(),
            final(cache).penalty_map() == old(cache).penalty_map(),
            final(cache).cfg() == old(cache).cfg(),
    {
        let n = self.relays.len();
        let ghost entries = self.relay_entries();
        let mut i: usize = 0;
        while i < n
            invariant
                i <= n,
                n == entries.len(),
                entries == self.relay_entries(),
                crate::str_map::keys_unique(entries),
                cache.keys() == old(cache).keys().union_prefer_right(Map::new(
                    |k: Seq<char>| relay_seen(entries, k, i as int) && self.relays().contains_key(k) && syncable(self.relays()[k]),
                    |k: Seq<char>| self.relays()[k].public_key_bytes@,
                )),
                cache.lists() == old(cache).lists(),
                cache.penalty_map() == old(cache).penalty_map(),
                cache.cfg() == old(cache).cfg(),
            decreases n - i,
        {
            let id = self.relays.key_at(i);
            let info = self.relays.value_at(i);
            let ghost prev_keys = cache.keys();
            proof {
                assert forall|t: Seq<char>| #[trigger] relay_seen(entries, t, i + 1)
                    <==> relay_seen(entries, t, i as int) || t == id@ by {
                    lemma_relay_seen_step(entries, t, i as int);
                }
                assert(self.relays()[id@] == *info);
            }
            if info.active && info.public_key_bytes.len() == 32 {
                if ed25519_key_valid(info.public_key_bytes.as_slice()) {
                    cache.register_relay_key(id.clone(), info.public_key_bytes.clone());
                    proof {
                        assert(syncable(self.relays()[id@]));
                    }
                }
            }
            proof {
                assert(cache.keys() =~= old(cache).keys().union_prefer_right(Map::new(
                    |k: Seq<char>| relay_seen(entries, k, i + 1) && self.relays().contains_key(k) && syncable(self.relays()[k]),
                    |k: Seq<char>| self.relays()[k].public_key_bytes@,
                )));
            }
            i = i + 1;
        }
        proof {
            assert forall|k: Seq<char>| self.relays().contains_key(k) implies #[trigger] relay_seen(entries, k, n as int) by {
                crate::str_map::lemma_assoc_dom(entries, k);
                let j = choose|j: int| crate::str_map::key_position(entries, k, j);
                assert(0 <= j < n && entries[j].0@ == k);
            }
            assert(cache.keys() =~= old(cache).keys().union_prefer_right(self.synced_keys()));
        }
    }
}

} // verus!
