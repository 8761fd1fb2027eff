use vstd::prelude::*;

use crate::attestation::crypto::{hex_decoded, is_hex_text};
use crate::attestation::relay_ticket::{ticket_accepted, RelayTicket, TicketError};
use crate::clock::now_millis;
use crate::str_map::{key_position, keys_unique, StrMap};

verus! {

/// Configuration of the endpoint cache.
#[derive(Debug, Clone)]
pub struct CacheConfig {
    /// Seconds a cache entry lives.
    pub entry_ttl_secs: u64,
    /// Most endpoints cached per peer.
    pub max_endpoints_per_peer: usize,
    /// Failed claims within the window that blacklist a relay.
    pub poison_threshold: u32,
    /// The poison-detection window, in seconds.
    pub penalty_window_secs: u64,
    /// Most entries in the whole cache.
    pub max_cache_entries: usize,
}

impl Default for CacheConfig {
    fn default() -> (c: Self)
        ensures
            c.entry_ttl_secs == 300,
            c.max_endpoints_per_peer == 16,
            c.poison_threshold == 5,
            c.penalty_window_secs == 60,
            c.max_cache_entries == 10_000,
    {
        CacheConfig {
            entry_ttl_secs: 300,
            max_endpoints_per_peer: 16,
            poison_threshold: 5,
            penalty_window_secs: 60,
            max_cache_entries: 10_000,
        }
    }
}

/// Milliseconds from `since` to `now`, or zero when `now` is earlier.
pub open spec fn elapsed_ms(now: u64, since: u64) -> int {
    if now >= since { now - since } else { 0 }
}

/// A cached relay endpoint mapping.
#[derive(Debug, Clone)]
pub struct CacheEntry {
    /// The relay claiming to serve the target peer.
    pub relay_id: String,
    /// When the entry was inserted, in milliseconds since the Unix epoch.
    pub inserted_at: u64,
    /// How long the entry lives, in seconds.
    pub ttl_secs: u64,
    /// The ticket that authorized the entry.
    pub ticket: RelayTicket,
}

/// Whether `e` has outlived its lifetime at `now`.
pub open spec fn expired_at(e: CacheEntry, now: u64) -> bool {
    elapsed_ms(now, e.inserted_at) > e.ttl_secs * 1000
}

fn elapsed_exceeds(now: u64, since: u64, secs: u64) -> (b: bool)
    ensures
        b == (elapsed_ms(now, since) > secs * 1000),
{
    let elapsed: u64 = if now >= since { now - since } else { 0 };
    (elapsed as u128) > (secs as u128) * 1000
}

impl CacheEntry {
    pub fn is_expired_at(&self, now: u64) -> (b: bool)
        ensures
            b == expired_at(*self, now),
    {
        elapsed_exceeds(now, self.inserted_at, self.ttl_secs)
    }

    /// Whether the entry has outlived its lifetime at the clock's reading:
    /// what `is_expired_at` gives at that reading.
    pub fn is_expired(&self) -> (b: bool)
        ensures
            exists|now: u64| b == #[trigger] expired_at(*self, now),
    {
        let now = now_millis();
        let b = self.is_expired_at(now);
        assert(b == expired_at(*self, now));
        b
    }
}

/// Poison tracking of one relay.
#[derive(Debug, Clone, Copy)]
pub struct PeerPenalty {
    /// Failed claims within the current window.
    pub failed_attempts: u32,
    /// When the current window started, in milliseconds.
    pub window_start: u64,
    /// Whether the relay is blacklisted.
    pub blacklisted: bool,
}

#[derive(Debug)]
pub enum CacheError {
    TicketInvalid(TicketError),
    TargetMismatch,
    PeerBlacklisted,
    CacheFull,
}

/// Cache statistics.
#[derive(Debug, Clone)]
pub struct CacheStats {
    pub total_entries: usize,
    pub unique_peers: usize,
    pub registered_relays: usize,
    pub blacklisted_relays: usize,
}

// ---------------------------------------------------------------------
// Entry lists
// ---------------------------------------------------------------------

/// `sorted` with `e` placed after every entry inserted no later than it.
pub open spec fn insert_by_time(sorted: Seq<CacheEntry>, e: CacheEntry) -> Seq<CacheEntry>
    decreases sorted.len(),
{
    if sorted.len() == 0 {
        seq![e]
    } else if sorted.last().inserted_at <= e.inserted_at {
        sorted.push(e)
    } else {
        insert_by_time(sorted.drop_last(), e).push(sorted.last())
    }
}

/// `s` in order of insertion time; entries inserted at the same time keep
/// their order.
pub open spec fn sort_by_time(s: Seq<CacheEntry>) -> Seq<CacheEntry>
    decreases s.len(),
{
    if s.len() == 0 {
        Seq::empty()
    } else {
        insert_by_time(sort_by_time(s.drop_last()), s.last())
    }
}

/// The entries of `list` that do not come from `relay`.
pub open spec fn drop_relay(list: Seq<CacheEntry>, relay: Seq<char>) -> Seq<CacheEntry>
    decreases list.len(),
{
    if list.len() == 0 {
        Seq::empty()
    } else {
        let rest = drop_relay(list.drop_last(), relay);
        if list.last().relay_id@ != relay { rest.push(list.last()) } else { rest }
    }
}

/// The entries of `list` still alive at `now`.
pub open spec fn live_entries(list: Seq<CacheEntry>, now: u64) -> Seq<CacheEntry>
    decreases list.len(),
{
    if list.len() == 0 {
        Seq::empty()
    } else {
        let rest = live_entries(list.drop_last(), now);
        if !expired_at(list.last(), now) { rest.push(list.last()) } else { rest }
    }
}

/// The number of entries over all lists.
pub open spec fn total_len(lists: Seq<(String, Vec<CacheEntry>)>) -> int
    decreases lists.len(),
{
    if lists.len() == 0 {
        0
    } else {
        total_len(lists.drop_last()) + lists.last().1@.len()
    }
}

/// The number of blacklisted relays among `penalties`.
pub open spec fn blacklisted_count(penalties: Seq<(String, PeerPenalty)>) -> int
    decreases penalties.len(),
{
    if penalties.len() == 0 {
        0
    } else {
        blacklisted_count(penalties.drop_last()) + if penalties.last().1.blacklisted { 1int } else { 0int }
    }
}

proof fn lemma_insert_at(s: Seq<CacheEntry>, e: CacheEntry, i: int)
    requires
        0 <= i <= s.len(),
        forall|j: int| i <= j < s.len() ==> #[trigger] s[j].inserted_at > e.inserted_at,
        i == 0 || s[i - 1].inserted_at <= e.inserted_at,
    ensures
        insert_by_time(s, e) == s.take(i) + seq![e] + s.skip(i),
    decreases s.len(),
{
    if s.len() == 0 {
        assert(s.take(i) + seq![e] + s.skip(i) =~= seq![e]);
    } else if s.last().inserted_at <= e.inserted_at {
        assert(i == s.len());
        assert(s.take(i) + seq![e] + s.skip(i) =~= s.push(e));
    } else {
        let d = s.drop_last();
        lemma_insert_at(d, e, i);
        assert(d.take(i) + seq![e] + d.skip(i) + seq![s.last()] =~= s.take(i) + seq![e] + s.skip(i));
    }
}

proof fn lemma_total_len_nonneg(lists: Seq<(String, Vec<CacheEntry>)>)
    ensures
        total_len(lists) >= 0,
    decreases lists.len(),
{
    if lists.len() > 0 {
        lemma_total_len_nonneg(lists.drop_last());
    }
}

fn insert_entry_by_time(sorted: &mut Vec<CacheEntry>, e: CacheEntry)
    ensures
        final(sorted)@ == insert_by_time(old(sorted)@, e),
{
    let mut i: usize = sorted.len();
    while i > 0 && sorted[i - 1].inserted_at > e.inserted_at
        invariant
            i <= sorted.len(),
            forall|j: int| i <= j < sorted.len() ==> #[trigger] sorted@[j].inserted_at > e.inserted_at,
        decreases i,
    {
        i = i - 1;
    }
    proof { lemma_insert_at(sorted@, e, i as int); }
    let ghost before = sorted@;
    sorted.insert(i, e);
    assert(sorted@ =~= before.take(i as int) + seq![e] + before.skip(i as int));
}

fn sort_entries_by_time(list: Vec<CacheEntry>) -> (r: Vec<CacheEntry>)
    ensures
        r@ == sort_by_time(list@),
{
    let ghost orig = list@;
    let n = list.len();
    let mut rest = list;
    let mut sorted: Vec<CacheEntry> = Vec::new();
    let mut k: usize = 0;
    while rest.len() > 0
        invariant
            k <= orig.len(),
            orig.len() == n,
            rest@ == orig.skip(k as int),
            sorted@ == sort_by_time(orig.take(k as int)),
        decreases rest.len(),
    {
        let e = rest.remove(0);
        assert(orig.take(k + 1).drop_last() =~= orig.take(k as int));
        assert(orig.take(k + 1).last() == e);
        insert_entry_by_time(&mut sorted, e);
        assert(rest@ =~= orig.skip(k + 1));
        k = k + 1;
    }
    assert(orig.take(k as int) =~= orig);
    sorted
}

fn without_relay(list: &Vec<CacheEntry>, relay: &String) -> (r: Vec<CacheEntry>)
    ensures
        r@ == drop_relay(list@, relay@),
{
    let mut kept: Vec<CacheEntry> = Vec::new();
    let mut i: usize = 0;
    while i < list.len()
        invariant
            i <= list.len(),
            kept@ == drop_relay(list@.take(i as int), relay@),
        decreases list.len() - i,
    {
        assert(list@.take(i + 1).drop_last() =~= list@.take(i as int));
        if list[i].relay_id != *relay {
            kept.push(list[i].duplicate());
        }
        i = i + 1;
    }
    assert(list@.take(i as int) =~= list@);
    kept
}

impl CacheEntry {
    pub fn duplicate(&self) -> (r: Self)
        ensures
            r == *self,
    {
        CacheEntry {
            relay_id: self.relay_id.clone(),
            inserted_at: self.inserted_at,
            ttl_secs: self.ttl_secs,
            ticket: self.ticket.duplicate(),
        }
    }
}



proof fn lemma_insert_by_time_members(sorted: Seq<CacheEntry>, e: CacheEntry)
    ensures
        insert_by_time(sorted, e).len() == sorted.len() + 1,
        forall|i: int| 0 <= i < insert_by_time(sorted, e).len() ==> #[trigger] insert_by_time(sorted, e)[i] == e
            || exists|j: int| 0 <= j < sorted.len() && insert_by_time(sorted, e)[i] == sorted[j],
    decreases sorted.len(),
{
    if sorted.len() > 0 && sorted.last().inserted_at > e.inserted_at {
        let d = sorted.drop_last();
        lemma_insert_by_time_members(d, e);
        let r = insert_by_time(sorted, e);
        assert forall|i: int| 0 <= i < r.len() implies #[trigger] r[i] == e
            || exists|j: int| 0 <= j < sorted.len() && r[i] == sorted[j] by {
            if i == r.len() - 1 {
                assert(r[i] == sorted[sorted.len() - 1]);
            } else {
                let ri = insert_by_time(d, e)[i];
                assert(r[i] == ri);
                if ri != e {
                    let j = choose|j: int| 0 <= j < d.len() && ri == d[j];
                    assert(sorted[j] == d[j]);
                }
            }
        }
    } else if sorted.len() > 0 {
        let r = insert_by_time(sorted, e);
        assert forall|i: int| 0 <= i < r.len() implies #[trigger] r[i] == e
            || exists|j: int| 0 <= j < sorted.len() && r[i] == sorted[j] by {
            if i < sorted.len() {
                assert(r[i] == sorted[i]);
            }
        }
    }
}

proof fn lemma_sort_members(s: Seq<CacheEntry>)
    ensures
        sort_by_time(s).len() == s.len(),
        forall|i: int| 0 <= i < sort_by_time(s).len() ==> exists|j: int| 0 <= j < s.len() && #[trigger] sort_by_time(s)[i] == s[j],
    decreases s.len(),
{
    if s.len() > 0 {
        let d = s.drop_last();
        lemma_sort_members(d);
        lemma_insert_by_time_members(sort_by_time(d), s.last());
        let r = sort_by_time(s);
        assert forall|i: int| 0 <= i < r.len() implies exists|j: int| 0 <= j < s.len() && #[trigger] r[i] == s[j] by {
            if r[i] == s.last() {
                assert(r[i] == s[s.len() - 1]);
            } else {
                let k = choose|k: int| 0 <= k < sort_by_time(d).len() && r[i] == sort_by_time(d)[k];
                let j = choose|j: int| 0 <= j < d.len() && sort_by_time(d)[k] == d[j];
                assert(s[j] == d[j]);
            }
        }
    }
}

proof fn lemma_drop_relay_members(list: Seq<CacheEntry>, relay: Seq<char>)
    ensures
        drop_relay(list, relay).len() <= list.len(),
        forall|i: int| 0 <= i < drop_relay(list, relay).len() ==> exists|j: int| 0 <= j < list.len() && #[trigger] drop_relay(list, relay)[i] == list[j],
    decreases list.len(),
{
    if list.len() > 0 {
        let d = list.drop_last();
        lemma_drop_relay_members(d, relay);
        let r = drop_relay(list, relay);
        assert forall|i: int| 0 <= i < r.len() implies exists|j: int| 0 <= j < list.len() && #[trigger] r[i] == list[j] by {
            if i < drop_relay(d, relay).len() {
                let j = choose|j: int| 0 <= j < d.len() && drop_relay(d, relay)[i] == d[j];
                assert(r[i] == drop_relay(d, relay)[i]);
                assert(list[j] == d[j]);
            } else {
                assert(r[i] == list[list.len() - 1]);
            }
        }
    }
}

proof fn lemma_live_members(list: Seq<CacheEntry>, now: u64)
    ensures
        live_entries(list, now).len() <= list.len(),
        forall|i: int| 0 <= i < live_entries(list, now).len() ==> exists|j: int| 0 <= j < list.len() && #[trigger] live_entries(list, now)[i] == list[j],
    decreases list.len(),
{
    if list.len() > 0 {
        let d = list.drop_last();
        lemma_live_members(d, now);
        let r = live_entries(list, now);
        assert forall|i: int| 0 <= i < r.len() implies exists|j: int| 0 <= j < list.len() && #[trigger] r[i] == list[j] by {
            if i < live_entries(d, now).len() {
                let j = choose|j: int| 0 <= j < d.len() && live_entries(d, now)[i] == d[j];
                assert(r[i] == live_entries(d, now)[i]);
                assert(list[j] == d[j]);
            } else {
                assert(r[i] == list[list.len() - 1]);
            }
        }
    }
}

/// Whether every entry of `list` serves `target` and names its ticket's relay.
pub open spec fn list_attributed(list: Seq<CacheEntry>, target: Seq<char>) -> bool {
    forall|i: int| 0 <= i < list.len() ==> (#[trigger] list[i]).ticket.target_id@ == target
        && list[i].relay_id == list[i].ticket.relay_id
}


proof fn lemma_placed(list: Seq<CacheEntry>, max: usize, e: CacheEntry, target: Seq<char>)
    requires
        max > 0 || list.len() > 0,
    ensures
        list_attributed(list, target) && e.ticket.target_id@ == target && e.relay_id == e.ticket.relay_id
            ==> list_attributed(placed(list, max, e), target),
        list.len() <= max ==> placed(list, max, e).len() <= max,
{
    lemma_sort_members(list);
    let kept = if list.len() >= max { sort_by_time(list).drop_first() } else { list };
    assert forall|i: int| 0 <= i < kept.len() implies exists|j: int| 0 <= j < list.len() && #[trigger] kept[i] == list[j] by {
        if list.len() >= max {
            assert(kept[i] == sort_by_time(list)[i + 1]);
        } else {
            assert(kept[i] == list[i]);
        }
    }
    if list_attributed(list, target) && e.ticket.target_id@ == target && e.relay_id == e.ticket.relay_id {
        let r = placed(list, max, e);
        assert forall|i: int| 0 <= i < r.len() implies (#[trigger] r[i]).ticket.target_id@ == target
            && r[i].relay_id == r[i].ticket.relay_id by {
            if i < kept.len() {
                let j = choose|j: int| 0 <= j < list.len() && kept[i] == list[j];
                assert(r[i] == list[j]);
            }
        }
    }
}

/// The 32 bytes of a relay's Ed25519 public key.
pub struct RelayKey {
    bytes: Vec<u8>,
}

impl RelayKey {
    #[verifier::type_invariant]
    spec fn sized(self) -> bool {
        self.bytes@.len() == 32
    }

    pub closed spec fn key_bytes(self) -> Seq<u8> {
        self.bytes@
    }

    pub fn from_bytes(bytes: Vec<u8>) -> (k: Self)
        requires
            bytes@.len() == 32,
        ensures
            k.key_bytes() == bytes@,
    {
        RelayKey { bytes }
    }

    pub fn as_slice(&self) -> (b: &[u8])
        ensures
            b@ == self.key_bytes(),
            b@.len() == 32,
    {
        proof { use_type_invariant(self); }
        self.bytes.as_slice()
    }
}

/// The cached lists by target, each key of `lists` with its entries.
pub open spec fn list_map(lists: Map<Seq<char>, Vec<CacheEntry>>) -> Map<Seq<char>, Seq<CacheEntry>> {
    lists.map_values(|v: Vec<CacheEntry>| v@)
}

proof fn lemma_pointwise_lists(s1: Seq<(String, Vec<CacheEntry>)>, s2: Seq<(String, Vec<CacheEntry>)>, relay: Seq<char>)
    requires
        keys_unique(s1),
        s1.len() == s2.len(),
        forall|j: int| 0 <= j < s1.len() ==> #[trigger] s2[j].0 == s1[j].0 && s2[j].1@ == drop_relay(s1[j].1@, relay),
    ensures
        keys_unique(s2),
        list_map(crate::str_map::assoc_map(s2)) == list_map(crate::str_map::assoc_map(s1)).map_values(
            |l: Seq<CacheEntry>| drop_relay(l, relay),
        ),
{
    let m1 = list_map(crate::str_map::assoc_map(s1));
    let m2 = list_map(crate::str_map::assoc_map(s2));
    assert forall|a: int, b: int| 0 <= a < b < s2.len() implies s2[a].0@ != s2[b].0@ by {
        assert(s2[a].0 == s1[a].0 && s2[b].0 == s1[b].0);
    }
    assert forall|k: Seq<char>| m2.contains_key(k) <==> m1.contains_key(k) by {
        crate::str_map::lemma_assoc_dom(s1, k);
        crate::str_map::lemma_assoc_dom(s2, k);
        if exists|i: int| key_position(s1, k, i) {
            let i = choose|i: int| key_position(s1, k, i);
            assert(key_position(s2, k, i));
        }
        if exists|i: int| key_position(s2, k, i) {
            let i = choose|i: int| key_position(s2, k, i);
            assert(key_position(s1, k, i));
        }
    }
    assert forall|k: Seq<char>| m2.contains_key(k) implies m2[k] == drop_relay(m1[k], relay) by {
        crate::str_map::lemma_assoc_dom(s2, k);
        let i = choose|i: int| key_position(s2, k, i);
        crate::str_map::lemma_assoc_lookup(s1, i);
        crate::str_map::lemma_assoc_lookup(s2, i);
    }
    assert(m2 =~= m1.map_values(|l: Seq<CacheEntry>| drop_relay(l, relay)));
}


/// The list of a target once `e` joins it: when the list is full, the
/// entries are put in order of insertion time and the oldest is evicted.
pub open spec fn placed(list: Seq<CacheEntry>, max: usize, e: CacheEntry) -> Seq<CacheEntry> {
    (if list.len() >= max { sort_by_time(list).drop_first() } else { list }).push(e)
}

/// The entry that `ticket` puts in the cache at `now`.
pub open spec fn entry_for(ticket: RelayTicket, now: u64, ttl_secs: u64) -> CacheEntry {
    CacheEntry { relay_id: ticket.relay_id, inserted_at: now, ttl_secs, ticket }
}

fn duplicate_list(list: &Vec<CacheEntry>) -> (r: Vec<CacheEntry>)
    ensures
        r@ == list@,
{
    let mut out: Vec<CacheEntry> = Vec::new();
    let mut i: usize = 0;
    while i < list.len()
        invariant
            i <= list.len(),
            out@ == list@.take(i as int),
        decreases list.len() - i,
    {
        out.push(list[i].duplicate());
        assert(out@ =~= list@.take(i + 1));
        i = i + 1;
    }
    assert(out@ =~= list@);
    out
}

fn saturating_total(lists: &StrMap<Vec<CacheEntry>>) -> (t: usize)
    ensures
        t == (if total_len(lists.entries()) > usize::MAX { usize::MAX as int } else { total_len(lists.entries()) }),
{
    let n = lists.len();
    let mut total: usize = 0;
    let mut i: usize = 0;
    while i < n
        invariant
            i <= n,
            n == lists.entries().len(),
            total == (if total_len(lists.entries().take(i as int)) > usize::MAX {
                usize::MAX as int
            } else {
                total_len(lists.entries().take(i as int))
            }),
        decreases n - i,
    {
        let len = lists.value_at(i).len();
        proof {
            assert(lists.entries().take(i + 1).drop_last() =~= lists.entries().take(i as int));
            lemma_total_len_nonneg(lists.entries().take(i as int));
        }
        if total > usize::MAX - len {
            total = usize::MAX;
        } else {
            total = total + len;
        }
        i = i + 1;
    }
    assert(lists.entries().take(n as int) =~= lists.entries());
    total
}

fn unregistered_message(relay_id: &String) -> (m: String)
    ensures
        m@ == "relay "@ + relay_id@ + " not registered"@,
{
    let mut m = String::from_str("relay ");
    m.append(relay_id.as_str());
    m.append(" not registered");
    m
}


fn live_list(list: &Vec<CacheEntry>, now: u64) -> (r: Vec<CacheEntry>)
    ensures
        r@ == live_entries(list@, now),
{
    let mut kept: Vec<CacheEntry> = Vec::new();
    let mut i: usize = 0;
    while i < list.len()
        invariant
            i <= list.len(),
            kept@ == live_entries(list@.take(i as int), now),
        decreases list.len() - i,
    {
        assert(list@.take(i + 1).drop_last() =~= list@.take(i as int));
        if !list[i].is_expired_at(now) {
            kept.push(list[i].duplicate());
        }
        i = i + 1;
    }
    assert(list@.take(i as int) =~= list@);
    kept
}

/// The penalty record of a relay before a new report at `now`.
pub open spec fn penalty_or_fresh(penalties: Map<Seq<char>, PeerPenalty>, relay: Seq<char>, now: u64) -> PeerPenalty {
    if penalties.contains_key(relay) {
        penalties[relay]
    } else {
        PeerPenalty { failed_attempts: 0, window_start: now, blacklisted: false }
    }
}

/// Whether the detection window of `p` is over at `now`.
pub open spec fn window_over(p: PeerPenalty, now: u64, window_secs: u64) -> bool {
    elapsed_ms(now, p.window_start) > window_secs * 1000
}

/// The failed claims counted before a report at `now`.
pub open spec fn attempts_so_far(p: PeerPenalty, now: u64, window_secs: u64) -> int {
    if window_over(p, now, window_secs) { 0 } else { p.failed_attempts as int }
}


/// Whether one of the first `n` keys of `s` is `k`.
pub open spec fn key_seen(s: Seq<(String, Vec<CacheEntry>)>, k: Seq<char>, n: int) -> bool {
    exists|j: int| 0 <= j < n && s[j].0@ == k
}


proof fn lemma_key_seen_step(s: Seq<(String, Vec<CacheEntry>)>, t: Seq<char>, i: int)
    requires
        0 <= i < s.len(),
    ensures
        key_seen(s, t, i + 1) <==> key_seen(s, t, i) || s[i].0@ == t,
{
    if key_seen(s, t, i + 1) {
        let j = choose|j: int| 0 <= j < i + 1 && s[j].0@ == t;
        if j < i {
            assert(key_seen(s, t, i));
        }
    }
    if key_seen(s, t, i) {
        let j = choose|j: int| 0 <= j < i && s[j].0@ == t;
        assert(0 <= j < i + 1 && s[j].0@ == t);
    }
    if s[i].0@ == t {
        assert(0 <= i < i + 1 && s[i].0@ == t);
    }
}

/// Endpoint cache with ticket verification and poison-penalty detection.
pub struct EndpointCache {
    entries: StrMap<Vec<CacheEntry>>,
    penalties: StrMap<PeerPenalty>,
    relay_keys: StrMap<RelayKey>,
    relay_epochs: StrMap<u64>,
    pub config: CacheConfig,
}

impl EndpointCache {
    /// The cached entries of each target peer.
    pub closed spec fn lists(&self) -> Map<Seq<char>, Seq<CacheEntry>> {
        list_map(self.entries.view_map())
    }

    /// The targets with their entry lists, in the order they were first cached.
    pub closed spec fn list_entries(&self) -> Seq<(String, Vec<CacheEntry>)> {
        self.entries.entries()
    }

    /// The configuration.
    pub closed spec fn cfg(&self) -> CacheConfig {
        self.config
    }

    pub closed spec fn penalty_map(&self) -> Map<Seq<char>, PeerPenalty> {
        self.penalties.view_map()
    }

    pub closed spec fn penalty_entries(&self) -> Seq<(String, PeerPenalty)> {
        self.penalties.entries()
    }

    /// The public key bytes of each registered relay.
    pub closed spec fn keys(&self) -> Map<Seq<char>, Seq<u8>> {
        self.relay_keys.view_map().map_values(|k: RelayKey| k.key_bytes())
    }

    pub closed spec fn key_count(&self) -> nat {
        self.relay_keys.entries().len()
    }

    /// The last epoch seen from each relay.
    pub closed spec fn epochs(&self) -> Map<Seq<char>, u64> {
        self.relay_epochs.view_map()
    }

    pub open spec fn blacklisted(&self, relay: Seq<char>) -> bool {
        self.penalty_map().contains_key(relay) && self.penalty_map()[relay].blacklisted
    }

    pub open spec fn min_epoch(&self, relay: Seq<char>) -> u64 {
        if self.epochs().contains_key(relay) { self.epochs()[relay] } else { 0 }
    }

    pub open spec fn entry_count(&self) -> int {
        total_len(self.list_entries())
    }

    pub open spec fn entries_of(&self, target: Seq<char>) -> Seq<CacheEntry> {
        if self.lists().contains_key(target) { self.lists()[target] } else { Seq::empty() }
    }

    /// Whether every cached entry serves the peer it is listed under and
    /// names the relay of its ticket.
    pub open spec fn attributed(&self) -> bool {
        forall|t: Seq<char>| #[trigger] self.lists().contains_key(t) ==> list_attributed(self.lists()[t], t)
    }

    pub fn new(config: CacheConfig) -> (c: Self)
        ensures
            c.lists() == Map::<Seq<char>, Seq<CacheEntry>>::empty(),
            c.list_entries().len() == 0,
            c.penalty_map() == Map::<Seq<char>, PeerPenalty>::empty(),
            c.penalty_entries().len() == 0,
            c.keys() == Map::<Seq<char>, Seq<u8>>::empty(),
            c.key_count() == 0,
            c.epochs() == Map::<Seq<char>, u64>::empty(),
            c.cfg() == config,
            c.attributed(),
    {
        let c = EndpointCache {
            entries: StrMap::new(),
            penalties: StrMap::new(),
            relay_keys: StrMap::new(),
            relay_epochs: StrMap::new(),
            config,
        };
        assert(c.lists() =~= Map::<Seq<char>, Seq<CacheEntry>>::empty());
        assert(c.keys() =~= Map::<Seq<char>, Seq<u8>>::empty());
        c
    }

    /// Registers the public key bytes of a relay; its epoch starts at zero
    /// unless one is recorded.
    pub fn register_relay_key(&mut self, relay_id: String, public_key: Vec<u8>)
        requires
            public_key@.len() == 32,
        ensures
            final(self).keys() == old(self).keys().insert(relay_id@, public_key@),
            final(self).epochs() == (if old(self).epochs().contains_key(relay_id@) {
                old(self).epochs()
            } else {
                old(self).epochs().insert(relay_id@, 0)
            }),
            final(self).lists() == old(self).lists(),
            final(self).list_entries() == old(self).list_entries(),
            final(self).penalty_map() == old(self).penalty_map(),
            final(self).penalty_entries() == old(self).penalty_entries(),
            final(self).cfg() == old(self).cfg(),
            final(self).key_count() == old(self).key_count() + (if old(self).keys().contains_key(relay_id@) { 0int } else { 1int }),
    {
        if !self.relay_epochs.contains_key(&relay_id) {
            self.relay_epochs.insert(relay_id.clone(), 0);
        }
        let ghost before = self.relay_keys.view_map();
        self.relay_keys.insert(relay_id, RelayKey::from_bytes(public_key));
        proof {
            assert(self.keys() =~= old(self).keys().insert(relay_id@, public_key@));
        }
    }

    /// Registers a relay's encoded public key (on relay join or update).
    pub fn register_relay(&mut self, relay_id: String, public_key: [u8; 32])
        ensures
            final(self).lists() == old(self).lists(),
            final(self).penalty_map() == old(self).penalty_map(),
            final(self).keys() == old(self).keys().insert(relay_id@, public_key@),
            final(self).epochs() == (if old(self).epochs().contains_key(relay_id@) {
                old(self).epochs()
            } else {
                old(self).epochs().insert(relay_id@, 0)
            }),
            final(self).cfg() == old(self).cfg(),
    {
        let bytes = vstd::slice::slice_to_vec(public_key.as_slice());
        self.register_relay_key(relay_id, bytes);
    }


    /// What caching the endpoint `ticket` attests for `target` at `now`
    /// (milliseconds) does, as `put_endpoint_at` states it.
    pub open spec fn endpoint_put_at(
        before: EndpointCache,
        after: EndpointCache,
        target: Seq<char>,
        ticket: RelayTicket,
        r: Result<(), CacheError>,
        now: u64,
    ) -> bool {
        &&& ({
                let relay = ticket.relay_id@;
                let now_secs = (now / 1000) as u64;
                if before.blacklisted(relay) {
                    r == Err::<(), CacheError>(CacheError::PeerBlacklisted) && after == before
                } else if ticket.target_id@ != target {
                    r == Err::<(), CacheError>(CacheError::TargetMismatch) && after == before
                } else if !before.keys().contains_key(relay) {
                    &&& r matches Err(CacheError::TicketInvalid(TicketError::KeyError(m)))
                        && m@ == "relay "@ + relay + " not registered"@
                    &&& after == before
                } else if !ticket_accepted(ticket, before.keys()[relay], before.min_epoch(relay), now_secs) {
                    &&& r matches Err(CacheError::TicketInvalid(_))
                    &&& now_secs > ticket.expiry ==> r == Err::<(), CacheError>(CacheError::TicketInvalid(TicketError::Expired))
                    &&& now_secs <= ticket.expiry && ticket.epoch < before.min_epoch(relay)
                        ==> r == Err::<(), CacheError>(CacheError::TicketInvalid(TicketError::ReplayDetected))
                    &&& now_secs <= ticket.expiry && ticket.epoch >= before.min_epoch(relay)
                        && is_hex_text(vstd::utf8::encode_utf8(ticket.signature@))
                        && hex_decoded(vstd::utf8::encode_utf8(ticket.signature@)).len() == 64
                        ==> r == Err::<(), CacheError>(CacheError::TicketInvalid(TicketError::InvalidSignature))
                    &&& after == before
                } else {
                    let raised = if ticket.epoch > before.min_epoch(relay) { ticket.epoch } else { before.min_epoch(relay) };
                    &&& after.epochs() == before.epochs().insert(relay, raised)
                    &&& if before.entry_count() >= before.cfg().max_cache_entries {
                        &&& r == Err::<(), CacheError>(CacheError::CacheFull)
                        &&& after.lists() == before.lists()
                        &&& after.list_entries() == before.list_entries()
                    } else {
                        &&& r is Ok
                        &&& after.lists() == before.lists().insert(
                            target,
                            placed(before.entries_of(target), before.cfg().max_endpoints_per_peer,
                                entry_for(ticket, now, before.cfg().entry_ttl_secs)),
                        )
                    }
                    &&& after.keys() == before.keys()
                    &&& after.key_count() == before.key_count()
                    &&& after.penalty_map() == before.penalty_map()
                    &&& after.penalty_entries() == before.penalty_entries()
                    &&& after.cfg() == before.cfg()
                }
            })
        &&& before.attributed() ==> after.attributed()
        &&& before.cfg().max_endpoints_per_peer > 0 && before.entries_of(target).len()
                    <= before.cfg().max_endpoints_per_peer ==> after.entries_of(target).len()
                    <= before.cfg().max_endpoints_per_peer
    }

    /// Caches the endpoint that `ticket` attests for `target_id` at `now`
    /// (milliseconds), once the ticket passes: the relay must not be
    /// blacklisted, the ticket must name the target and verify under the
    /// relay's registered key at or above the relay's last epoch. The
    /// relay's epoch is then raised to the ticket's, and the entry is added
    /// unless the cache is full.
    pub fn put_endpoint_at(&mut self, target_id: &str, ticket: RelayTicket, now: u64) -> (r: Result<(), CacheError>)
        requires
            old(self).cfg().max_endpoints_per_peer > 0 || old(self).entries_of(target_id@).len() > 0,
        ensures
            ({
                let relay = ticket.relay_id@;
                let now_secs = (now / 1000) as u64;
                if old(self).blacklisted(relay) {
                    r == Err::<(), CacheError>(CacheError::PeerBlacklisted) && *final(self) == *old(self)
                } else if ticket.target_id@ != target_id@ {
                    r == Err::<(), CacheError>(CacheError::TargetMismatch) && *final(self) == *old(self)
                } else if !old(self).keys().contains_key(relay) {
                    &&& r matches Err(CacheError::TicketInvalid(TicketError::KeyError(m)))
                        && m@ == "relay "@ + relay + " not registered"@
                    &&& *final(self) == *old(self)
                } else if !ticket_accepted(ticket, old(self).keys()[relay], old(self).min_epoch(relay), now_secs) {
                    &&& r matches Err(CacheError::TicketInvalid(_))
                    &&& now_secs > ticket.expiry ==> r == Err::<(), CacheError>(CacheError::TicketInvalid(TicketError::Expired))
                    &&& now_secs <= ticket.expiry && ticket.epoch < old(self).min_epoch(relay)
                        ==> r == Err::<(), CacheError>(CacheError::TicketInvalid(TicketError::ReplayDetected))
                    &&& now_secs <= ticket.expiry && ticket.epoch >= old(self).min_epoch(relay)
                        && is_hex_text(vstd::utf8::encode_utf8(ticket.signature@))
                        && hex_decoded(vstd::utf8::encode_utf8(ticket.signature@)).len() == 64
                        ==> r == Err::<(), CacheError>(CacheError::TicketInvalid(TicketError::InvalidSignature))
                    &&& *final(self) == *old(self)
                } else {
                    let raised = if ticket.epoch > old(self).min_epoch(relay) { ticket.epoch } else { old(self).min_epoch(relay) };
                    &&& final(self).epochs() == old(self).epochs().insert(relay, raised)
                    &&& if old(self).entry_count() >= old(self).cfg().max_cache_entries {
                        &&& r == Err::<(), CacheError>(CacheError::CacheFull)
                        &&& final(self).lists() == old(self).lists()
                        &&& final(self).list_entries() == old(self).list_entries()
                    } else {
                        &&& r is Ok
                        &&& final(self).lists() == old(self).lists().insert(
                            target_id@,
                            placed(old(self).entries_of(target_id@), old(self).cfg().max_endpoints_per_peer,
                                entry_for(ticket, now, old(self).cfg().entry_ttl_secs)),
                        )
                    }
                    &&& final(self).keys() == old(self).keys()
                    &&& final(self).key_count() == old(self).key_count()
                    &&& final(self).penalty_map() == old(self).penalty_map()
                    &&& final(self).penalty_entries() == old(self).penalty_entries()
                    &&& final(self).cfg() == old(self).cfg()
                }
            }),
            old(self).attributed() ==> final(self).attributed(),
            old(self).cfg().max_endpoints_per_peer > 0 && old(self).entries_of(target_id@).len()
                <= old(self).cfg().max_endpoints_per_peer ==> final(self).entries_of(target_id@).len()
                <= old(self).cfg().max_endpoints_per_peer,
            Self::endpoint_put_at(*old(self), *final(self), target_id@, ticket, r, now),
    {
        let target = target_id.to_owned();
        let target_id = &target;
        if self.is_blacklisted(ticket.relay_id.as_str()) {
            return Err(CacheError::PeerBlacklisted);
        }
        if ticket.target_id != *target_id {
            return Err(CacheError::TargetMismatch);
        }
        let min_epoch: u64 = match self.relay_epochs.get(&ticket.relay_id) {
            Some(e) => *e,
            None => 0,
        };
        match self.relay_keys.get(&ticket.relay_id) {
            None => {
                return Err(CacheError::TicketInvalid(TicketError::KeyError(unregistered_message(&ticket.relay_id))));
            },
            Some(key) => {
                proof { assert(self.keys()[ticket.relay_id@] == key.key_bytes()); }
                match ticket.verify_at(key.as_slice(), min_epoch, now / 1000) {
                    Ok(()) => {},
                    Err(e) => {
                        return Err(CacheError::TicketInvalid(e));
                    },
                }
            },
        }
        let raised: u64 = if ticket.epoch > min_epoch { ticket.epoch } else { min_epoch };
        self.relay_epochs.insert(ticket.relay_id.clone(), raised);
        let total_entries = saturating_total(&self.entries);
        if total_entries >= self.config.max_cache_entries {
            return Err(CacheError::CacheFull);
        }
        let max = self.config.max_endpoints_per_peer;
        let entry = CacheEntry {
            relay_id: ticket.relay_id.clone(),
            inserted_at: now,
            ttl_secs: self.config.entry_ttl_secs,
            ticket,
        };
        match self.entries.position(target_id) {
            Some(i) => {
                let mut list = duplicate_list(self.entries.value_at(i));
                if list.len() >= max {
                    list = sort_entries_by_time(list);
                    let ghost sorted = list@;
                    list.remove(0);
                    assert(list@ =~= sorted.drop_first());
                }
                list.push(entry);
                let ghost placed_list = list@;
                self.entries.set_value_at(i, list);
                proof {
                    assert(self.lists() =~= old(self).lists().insert(target_id@, placed_list));
                }
            },
            None => {
                let mut list: Vec<CacheEntry> = Vec::new();
                list.push(entry);
                let ghost placed_list = list@;
                assert(placed_list =~= Seq::<CacheEntry>::empty().push(entry));
                self.entries.insert(target_id.clone(), list);
                proof {
                    assert(self.lists() =~= old(self).lists().insert(target_id@, placed_list));
                }
            },
        }
        proof {
            let e = entry_for(ticket, now, old(self).cfg().entry_ttl_secs);
            let before = old(self).entries_of(target_id@);
            lemma_placed(before, old(self).cfg().max_endpoints_per_peer, e, target_id@);
            if old(self).attributed() {
                if old(self).lists().contains_key(target_id@) {
                    assert(list_attributed(before, target_id@));
                }
                assert forall|t: Seq<char>| #[trigger] self.lists().contains_key(t) implies list_attributed(self.lists()[t], t) by {
                    if t != target_id@ {
                        assert(old(self).lists().contains_key(t));
                    }
                }
            }
        }
        Ok(())
    }

    /// Caches the endpoint that `ticket` attests, at the clock's reading.
    pub fn put_endpoint(&mut self, target_id: &str, ticket: RelayTicket) -> (r: Result<(), CacheError>)
        requires
            old(self).cfg().max_endpoints_per_peer > 0 || old(self).entries_of(target_id@).len() > 0,
        ensures
            old(self).blacklisted(ticket.relay_id@) ==> r == Err::<(), CacheError>(CacheError::PeerBlacklisted),
            !old(self).blacklisted(ticket.relay_id@) && ticket.target_id@ != target_id@
                ==> r == Err::<(), CacheError>(CacheError::TargetMismatch),
            !old(self).blacklisted(ticket.relay_id@) && ticket.target_id@ == target_id@
                && !old(self).keys().contains_key(ticket.relay_id@) ==> {
                &&& r matches Err(CacheError::TicketInvalid(TicketError::KeyError(m)))
                    && m@ == "relay "@ + ticket.relay_id@ + " not registered"@
                &&& *final(self) == *old(self)
            },
            exists|now: u64| #[trigger] Self::endpoint_put_at(*old(self), *final(self), target_id@, ticket, r, now),
            r is Ok ==> final(self).lists().contains_key(target_id@),
            final(self).penalty_map() == old(self).penalty_map(),
            final(self).keys() == old(self).keys(),
            final(self).cfg() == old(self).cfg(),
    {
        self.put_endpoint_at(target_id, ticket, now_millis())
    }


    /// The live endpoints cached for `target_id` at `now`; the expired ones
    /// are evicted.
    pub fn get_endpoints_at(&mut self, target_id: &str, now: u64) -> (r: Vec<&CacheEntry>)
        ensures
            old(self).lists().contains_key(target_id@) ==> {
                &&& final(self).lists() == old(self).lists().insert(target_id@, live_entries(old(self).lists()[target_id@], now))
                &&& r@.len() == live_entries(old(self).lists()[target_id@], now).len()
                &&& forall|j: int| 0 <= j < r@.len() ==> *r@[j] == live_entries(old(self).lists()[target_id@], now)[j]
            },
            !old(self).lists().contains_key(target_id@) ==> r@.len() == 0 && final(self).lists() == old(self).lists(),
            final(self).list_entries().len() == old(self).list_entries().len(),
            final(self).penalty_map() == old(self).penalty_map(),
            final(self).penalty_entries() == old(self).penalty_entries(),
            final(self).keys() == old(self).keys(),
            final(self).key_count() == old(self).key_count(),
            final(self).epochs() == old(self).epochs(),
            final(self).cfg() == old(self).cfg(),
            old(self).attributed() ==> final(self).attributed(),
            Self::endpoints_read_at(*old(self), *final(self), target_id@, r@, now),
    {
        let target = target_id.to_owned();
        let target_id = &target;
        match self.entries.position(target_id) {
            Some(i) => {
                let live = live_list(self.entries.value_at(i), now);
                let ghost l = live@;
                self.entries.set_value_at(i, live);
                proof {
                    assert(self.lists() =~= old(self).lists().insert(target_id@, l));
                    if old(self).attributed() {
                        let before = old(self).lists()[target_id@];
                        lemma_live_members(before, now);
                        assert(old(self).lists().contains_key(target_id@));
                        assert(list_attributed(before, target_id@));
                        assert forall|k: int| 0 <= k < l.len() implies (#[trigger] l[k]).ticket.target_id@ == target_id@
                            && l[k].relay_id == l[k].ticket.relay_id by {
                            let j = choose|j: int| 0 <= j < before.len() && live_entries(before, now)[k] == before[j];
                            assert(l[k] == before[j]);
                        }
                        assert forall|t: Seq<char>| #[trigger] self.lists().contains_key(t) implies list_attributed(self.lists()[t], t) by {
                            if t != target_id@ {
                                assert(old(self).lists().contains_key(t));
                            }
                        }
                    }
                }
                let stored = self.entries.value_at(i);
                let mut out: Vec<&CacheEntry> = Vec::new();
                let mut j: usize = 0;
                while j < stored.len()
                    invariant
                        j <= stored.len(),
                        stored@ == l,
                        out@.len() == j,
                        forall|k: int| 0 <= k < j ==> *out@[k] == l[k],
                    decreases stored.len() - j,
                {
                    out.push(&stored[j]);
                    j = j + 1;
                }
                out
            },
            None => Vec::new(),
        }
    }

    /// What a read of `target`'s endpoints at `now` does: expired entries of
    /// the target are dropped, the live ones come back in order, and nothing
    /// else changes.
    pub open spec fn endpoints_read_at(
        before: EndpointCache,
        after: EndpointCache,
        target: Seq<char>,
        r: Seq<&CacheEntry>,
        now: u64,
    ) -> bool {
        &&& before.lists().contains_key(target) ==> {
            &&& after.lists() == before.lists().insert(target, live_entries(before.lists()[target], now))
            &&& r.len() == live_entries(before.lists()[target], now).len()
            &&& forall|j: int| 0 <= j < r.len() ==> *r[j] == live_entries(before.lists()[target], now)[j]
        }
        &&& !before.lists().contains_key(target) ==> r.len() == 0 && after.lists() == before.lists()
        &&& after.list_entries().len() == before.list_entries().len()
        &&& after.penalty_map() == before.penalty_map()
        &&& after.penalty_entries() == before.penalty_entries()
        &&& after.keys() == before.keys()
        &&& after.key_count() == before.key_count()
        &&& after.epochs() == before.epochs()
        &&& after.cfg() == before.cfg()
        &&& before.attributed() ==> after.attributed()
    }

    /// The live endpoints cached for `target_id` at the clock's reading:
    /// what `get_endpoints_at` gives at that reading.
    pub fn get_endpoints(&mut self, target_id: &str) -> (r: Vec<&CacheEntry>)
        ensures
            exists|now: u64| #[trigger] Self::endpoints_read_at(*old(self), *final(self), target_id@, r@, now),
            !old(self).lists().contains_key(target_id@) ==> r@.len() == 0,
            final(self).penalty_map() == old(self).penalty_map(),
            final(self).keys() == old(self).keys(),
            final(self).cfg() == old(self).cfg(),
    {
        let now = now_millis();
        self.get_endpoints_at(target_id, now)
    }

    fn purge_relay(&mut self, relay_id: &String)
        ensures
            final(self).lists() == old(self).lists().map_values(|l: Seq<CacheEntry>| drop_relay(l, relay_id@)),
            old(self).attributed() ==> final(self).attributed(),
            final(self).list_entries().len() == old(self).list_entries().len(),
            final(self).penalty_map() == old(self).penalty_map(),
            final(self).penalty_entries() == old(self).penalty_entries(),
            final(self).keys() == old(self).keys(),
            final(self).key_count() == old(self).key_count(),
            final(self).epochs() == old(self).epochs(),
            final(self).cfg() == old(self).cfg(),
    {
        let n = self.entries.len();
        let ghost before = self.entries.entries();
        let mut i: usize = 0;
        while i < n
            invariant
                i <= n,
                n == before.len(),
                keys_unique(before),
                before == old(self).list_entries(),
                self.entries.entries().len() == n,
                forall|j: int| 0 <= j < n ==> (#[trigger] self.entries.entries()[j]).0 == before[j].0,
                forall|j: int| 0 <= j < i ==> (#[trigger] self.entries.entries()[j]).1@ == drop_relay(before[j].1@, relay_id@),
                forall|j: int| i <= j < n ==> #[trigger] self.entries.entries()[j] == before[j],
                self.penalties == old(self).penalties,
                self.relay_keys == old(self).relay_keys,
                self.relay_epochs == old(self).relay_epochs,
                self.config == old(self).config,
            decreases n - i,
        {
            let kept = without_relay(self.entries.value_at(i), relay_id);
            self.entries.set_value_at(i, kept);
            i = i + 1;
        }
        proof {
            lemma_pointwise_lists(before, self.entries.entries(), relay_id@);
            if old(self).attributed() {
                assert forall|t: Seq<char>| #[trigger] self.lists().contains_key(t) implies list_attributed(self.lists()[t], t) by {
                    let l0 = old(self).lists()[t];
                    assert(old(self).lists().contains_key(t));
                    lemma_drop_relay_members(l0, relay_id@);
                    let l1 = self.lists()[t];
                    assert(l1 == drop_relay(l0, relay_id@));
                    assert forall|k: int| 0 <= k < l1.len() implies (#[trigger] l1[k]).ticket.target_id@ == t
                        && l1[k].relay_id == l1[k].ticket.relay_id by {
                        let j = choose|j: int| 0 <= j < l0.len() && drop_relay(l0, relay_id@)[k] == l0[j];
                        assert(l1[k] == l0[j]);
                    }
                }
            }
        }
    }

    /// Reports a failed claim by `relay_id` at `now` (milliseconds). A report
    /// after the window has run out starts a new window. Reaching the
    /// threshold blacklists the relay and drops its cached entries; the
    /// result says whether it did.
    pub fn report_poison_attempt_at(&mut self, relay_id: &str, now: u64) -> (b: bool)
        requires
            attempts_so_far(penalty_or_fresh(old(self).penalty_map(), relay_id@, now), now, old(self).cfg().penalty_window_secs) < u32::MAX,
        ensures
            ({
                let window = old(self).cfg().penalty_window_secs;
                let p = penalty_or_fresh(old(self).penalty_map(), relay_id@, now);
                let attempts = attempts_so_far(p, now, window) + 1;
                let tripped = attempts >= old(self).cfg().poison_threshold;
                &&& b == tripped
                &&& final(self).penalty_map() == old(self).penalty_map().insert(relay_id@, PeerPenalty {
                    failed_attempts: attempts as u32,
                    window_start: if window_over(p, now, window) { now } else { p.window_start },
                    blacklisted: p.blacklisted || tripped,
                })
                &&& final(self).lists() == (if tripped {
                    old(self).lists().map_values(|l: Seq<CacheEntry>| drop_relay(l, relay_id@))
                } else {
                    old(self).lists()
                })
            }),
            final(self).list_entries().len() == old(self).list_entries().len(),
            final(self).keys() == old(self).keys(),
            final(self).key_count() == old(self).key_count(),
            final(self).epochs() == old(self).epochs(),
            final(self).cfg() == old(self).cfg(),
            old(self).attributed() ==> final(self).attributed(),
            forall|r: Seq<char>| old(self).blacklisted(r) ==> #[trigger] final(self).blacklisted(r),
    {
        let relay = relay_id.to_owned();
        let relay_id = &relay;
        let (failed, start, black) = match self.penalties.get(relay_id) {
            Some(p) => (p.failed_attempts, p.window_start, p.blacklisted),
            None => (0u32, now, false),
        };
        let over = elapsed_exceeds(now, start, self.config.penalty_window_secs);
        let (failed, start) = if over { (0u32, now) } else { (failed, start) };
        let attempts = failed + 1;
        let tripped = attempts >= self.config.poison_threshold;
        self.penalties.insert(relay_id.clone(), PeerPenalty {
            failed_attempts: attempts,
            window_start: start,
            blacklisted: black || tripped,
        });
        assert(self.lists() == old(self).lists());
        assert(old(self).attributed() ==> self.attributed());
        if tripped {
            self.purge_relay(relay_id);
        }
        tripped
    }

    /// What a report of a failed claim by `relay` at `now` does, as
    /// `report_poison_attempt_at` states it.
    pub open spec fn poison_reported_at(
        before: EndpointCache,
        after: EndpointCache,
        relay: Seq<char>,
        b: bool,
        now: u64,
    ) -> bool {
        let window = before.cfg().penalty_window_secs;
        let p = penalty_or_fresh(before.penalty_map(), relay, now);
        let attempts = attempts_so_far(p, now, window) + 1;
        let tripped = attempts >= before.cfg().poison_threshold;
        &&& b == tripped
        &&& after.penalty_map() == before.penalty_map().insert(relay, PeerPenalty {
            failed_attempts: attempts as u32,
            window_start: if window_over(p, now, window) { now } else { p.window_start },
            blacklisted: p.blacklisted || tripped,
        })
        &&& after.lists() == (if tripped {
            before.lists().map_values(|l: Seq<CacheEntry>| drop_relay(l, relay))
        } else {
            before.lists()
        })
        &&& after.list_entries().len() == before.list_entries().len()
        &&& after.keys() == before.keys()
        &&& after.key_count() == before.key_count()
        &&& after.epochs() == before.epochs()
        &&& after.cfg() == before.cfg()
        &&& before.attributed() ==> after.attributed()
    }

    /// Reports a failed claim by `relay_id` at the clock's reading: what
    /// `report_poison_attempt_at` does at that reading.
    pub fn report_poison_attempt(&mut self, relay_id: &str) -> (b: bool)
        requires
            old(self).penalty_map().contains_key(relay_id@) ==> old(self).penalty_map()[relay_id@].failed_attempts < u32::MAX,
        ensures
            exists|now: u64| #[trigger] Self::poison_reported_at(*old(self), *final(self), relay_id@, b, now),
            b ==> final(self).blacklisted(relay_id@),
            old(self).blacklisted(relay_id@) ==> final(self).blacklisted(relay_id@),
            final(self).keys() == old(self).keys(),
            final(self).cfg() == old(self).cfg(),
    {
        let now = now_millis();
        let b = self.report_poison_attempt_at(relay_id, now);
        assert(Self::poison_reported_at(*old(self), *self, relay_id@, b, now));
        b
    }

    /// Removes a relay's registration and every entry it cached; targets
    /// left without entries are dropped.
    pub fn unregister_relay(&mut self, relay_id: &str)
        ensures
            final(self).keys() == old(self).keys().remove(relay_id@),
            final(self).epochs() == old(self).epochs().remove(relay_id@),
            final(self).lists() == Map::new(
                |t: Seq<char>| old(self).lists().contains_key(t) && drop_relay(old(self).lists()[t], relay_id@).len() > 0,
                |t: Seq<char>| drop_relay(old(self).lists()[t], relay_id@),
            ),
            final(self).penalty_map() == old(self).penalty_map(),
            final(self).penalty_entries() == old(self).penalty_entries(),
            final(self).cfg() == old(self).cfg(),
            old(self).attributed() ==> final(self).attributed(),
    {
        let relay = relay_id.to_owned();
        let relay_id = &relay;
        let _ = self.relay_keys.remove(relay_id);
        proof {
            assert(self.keys() =~= old(self).keys().remove(relay_id@));
        }
        let _ = self.relay_epochs.remove(relay_id);
        let n = self.entries.len();
        let ghost before = self.entries.entries();
        let ghost old_lists = old(self).lists();
        let mut kept: StrMap<Vec<CacheEntry>> = StrMap::new();
        let mut i: usize = 0;
        while i < n
            invariant
                i <= n,
                n == before.len(),
                keys_unique(before),
                before == self.entries.entries(),
                old_lists == list_map(crate::str_map::assoc_map(before)),
                list_map(kept.view_map()) == Map::new(
                    |t: Seq<char>| key_seen(before, t, i as int) && old_lists.contains_key(t)
                        && drop_relay(old_lists[t], relay_id@).len() > 0,
                    |t: Seq<char>| drop_relay(old_lists[t], relay_id@),
                ),
            decreases n - i,
        {
            let key = self.entries.key_at(i);
            let filtered = without_relay(self.entries.value_at(i), relay_id);
            proof {
                crate::str_map::lemma_assoc_lookup(before, i as int);
                crate::str_map::lemma_assoc_dom(kept.entries(), key@);
            }
            let ghost prev = list_map(kept.view_map());
            let ghost target = Map::new(
                |t: Seq<char>| key_seen(before, t, i + 1) && old_lists.contains_key(t)
                    && drop_relay(old_lists[t], relay_id@).len() > 0,
                |t: Seq<char>| drop_relay(old_lists[t], relay_id@),
            );
            proof {
                assert(before[i as int].0@ == key@);
                assert(old_lists.contains_key(key@) && old_lists[key@] == before[i as int].1@);
                assert(filtered@ == drop_relay(old_lists[key@], relay_id@));
                assert(!key_seen(before, key@, i as int)) by {
                    if key_seen(before, key@, i as int) {
                        let j = choose|j: int| 0 <= j < i && before[j].0@ == key@;
                        assert(before[j].0@ != before[i as int].0@);
                    }
                }
                assert(!prev.contains_key(key@));
                assert forall|t: Seq<char>| #[trigger] key_seen(before, t, i + 1)
                    <==> key_seen(before, t, i as int) || t == key@ by {
                    lemma_key_seen_step(before, t, i as int);
                }
            }
            if filtered.len() > 0 {
                let ghost f = filtered@;
                kept.insert(key.clone(), filtered);
                proof {
                    assert(list_map(kept.view_map()) =~= prev.insert(key@, f));
                    assert(list_map(kept.view_map()) =~= target);
                }
            } else {
                proof {
                    assert(prev =~= target);
                }
            }
            i = i + 1;
        }
        proof {
            assert forall|t: Seq<char>| old_lists.contains_key(t) implies #[trigger] key_seen(before, t, n as int) by {
                crate::str_map::lemma_assoc_dom(before, t);
                let j = choose|j: int| key_position(before, t, j);
                assert(0 <= j < n && before[j].0@ == t);
            }
        }
        self.entries = kept;
        proof {
            assert(self.lists() =~= Map::new(
                |t: Seq<char>| old(self).lists().contains_key(t) && drop_relay(old(self).lists()[t], relay_id@).len() > 0,
                |t: Seq<char>| drop_relay(old(self).lists()[t], relay_id@),
            ));
            if old(self).attributed() {
                assert forall|t: Seq<char>| #[trigger] self.lists().contains_key(t) implies list_attributed(self.lists()[t], t) by {
                    let l0 = old(self).lists()[t];
                    assert(old(self).lists().contains_key(t));
                    lemma_drop_relay_members(l0, relay_id@);
                    let l1 = self.lists()[t];
                    assert forall|k: int| 0 <= k < l1.len() implies (#[trigger] l1[k]).ticket.target_id@ == t
                        && l1[k].relay_id == l1[k].ticket.relay_id by {
                        let j = choose|j: int| 0 <= j < l0.len() && drop_relay(l0, relay_id@)[k] == l0[j];
                        assert(l1[k] == l0[j]);
                    }
                }
            }
        }
    }

    /// Counts for monitoring; the entry total saturates at the largest
    /// `usize`.
    pub fn stats(&self) -> (st: CacheStats)
        ensures
            st.total_entries == (if self.entry_count() > usize::MAX { usize::MAX as int } else { self.entry_count() }),
            st.unique_peers == self.list_entries().len(),
            st.registered_relays == self.key_count(),
            st.blacklisted_relays == blacklisted_count(self.penalty_entries()),
    {
        let total_entries = saturating_total(&self.entries);
        let n = self.penalties.len();
        let mut count: usize = 0;
        let mut i: usize = 0;
        while i < n
            invariant
                i <= n,
                n == self.penalties.entries().len(),
                count == blacklisted_count(self.penalties.entries().take(i as int)),
                count <= i,
            decreases n - i,
        {
            assert(self.penalties.entries().take(i + 1).drop_last() =~= self.penalties.entries().take(i as int));
            if self.penalties.value_at(i).blacklisted {
                count = count + 1;
            }
            i = i + 1;
        }
        assert(self.penalties.entries().take(n as int) =~= self.penalties.entries());
        CacheStats {
            total_entries,
            unique_peers: self.entries.len(),
            registered_relays: self.relay_keys.len(),
            blacklisted_relays: count,
        }
    }

    /// Whether the relay is blacklisted.
    pub fn is_blacklisted(&self, relay_id: &str) -> (b: bool)
        ensures
            b == self.blacklisted(relay_id@),
    {
        let relay = relay_id.to_owned();
        match self.penalties.get(&relay) {
            Some(p) => p.blacklisted,
            None => false,
        }
    }
}

} // verus!
