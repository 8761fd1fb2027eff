use vstd::prelude::*;

use crate::congestion::types::{
    CongestionEvent, CongestionMetrics, TenantId, WindowSize, MAX_ZERO_WINDOW_COUNT,
};
use crate::str_map::StrMap;

verus! {

/// Forces a tenant's window open after too many zero-window heartbeats.
pub struct WindowController {
    zero_window_count: StrMap<u32>,
    stalls_prevented: u64,
}

/// The consecutive zero-window count of a tenant, zero when untracked.
pub open spec fn count_in(counts: Map<Seq<char>, u32>, tenant: Seq<char>) -> u32 {
    if counts.contains_key(tenant) { counts[tenant] } else { 0 }
}

/// Every tracked count lies below the forcing threshold.
pub open spec fn counts_below_threshold(counts: Map<Seq<char>, u32>) -> bool {
    forall|t: Seq<char>| counts.contains_key(t) ==> #[trigger] counts[t] < MAX_ZERO_WINDOW_COUNT
}

impl WindowController {
    #[verifier::type_invariant]
    spec fn below_threshold(self) -> bool {
        counts_below_threshold(self.zero_window_count.view_map())
    }

    /// Consecutive zero-window heartbeats per tenant.
    pub closed spec fn counts(&self) -> Map<Seq<char>, u32> {
        self.zero_window_count.view_map()
    }

    /// Stalls broken by forcing a window open.
    pub closed spec fn stalls(&self) -> u64 {
        self.stalls_prevented
    }

    pub fn new() -> (c: Self)
        ensures
            c.counts() == Map::<Seq<char>, u32>::empty(),
            c.stalls() == 0,
    {
        WindowController { zero_window_count: StrMap::new(), stalls_prevented: 0 }
    }

    /// A non-zero window clears the tenant's count; a zero window counts one
    /// more, and the sixth in a row forces the window open to its minimum.
    pub fn process_heartbeat(&mut self, tenant: &TenantId, advertised_window: WindowSize) -> (event: Option<CongestionEvent>)
        requires
            advertised_window.size() == 0 && count_in(old(self).counts(), tenant@) + 1 >= MAX_ZERO_WINDOW_COUNT
                ==> old(self).stalls() < u64::MAX,
        ensures
            counts_below_threshold(final(self).counts()),
            advertised_window.size() != 0 ==> event is None
                && final(self).counts() == old(self).counts().remove(tenant@)
                && final(self).stalls() == old(self).stalls(),
            advertised_window.size() == 0 ==> {
                let c = count_in(old(self).counts(), tenant@) + 1;
                if c >= MAX_ZERO_WINDOW_COUNT {
                    &&& event matches Some(CongestionEvent::WindowForcedOpen { tenant_id, new_window })
                        && tenant_id == *tenant && new_window.size() == 1
                    &&& final(self).counts() == old(self).counts().remove(tenant@)
                    &&& final(self).stalls() == old(self).stalls() + 1
                } else {
                    &&& event == Some(CongestionEvent::ZeroWindowHeartbeat { tenant_id: *tenant, consecutive_count: c as u32 })
                    &&& final(self).counts() == old(self).counts().insert(tenant@, c as u32)
                    &&& final(self).stalls() == old(self).stalls()
                }
            },
    {
        proof { use_type_invariant(&*self); }
        let mut counts: StrMap<u32> = StrMap::new();
        std::mem::swap(&mut counts, &mut self.zero_window_count);
        if !advertised_window.is_zero() {
            counts.remove(tenant);
            self.zero_window_count = counts;
            return None;
        }
        let previous = match counts.get(tenant) {
            Some(c) => *c,
            None => 0,
        };
        let count = previous + 1;
        if count >= MAX_ZERO_WINDOW_COUNT {
            counts.remove(tenant);
            self.zero_window_count = counts;
            self.stalls_prevented = self.stalls_prevented + 1;
            Some(CongestionEvent::WindowForcedOpen { tenant_id: tenant.clone(), new_window: WindowSize::minimum() })
        } else {
            counts.insert(tenant.clone(), count);
            self.zero_window_count = counts;
            Some(CongestionEvent::ZeroWindowHeartbeat { tenant_id: tenant.clone(), consecutive_count: count })
        }
    }

    pub fn metrics(&self) -> (m: CongestionMetrics)
        ensures
            m.zero_window_stalls_prevented == self.stalls(),
            m.probe_backoff_interval_ms == 0,
            m.total_zero_window_ack_suppressed == 0,
    {
        CongestionMetrics {
            zero_window_stalls_prevented: self.stalls_prevented,
            probe_backoff_interval_ms: 0,
            total_zero_window_ack_suppressed: 0,
        }
    }

    pub fn reset(&mut self, tenant: &TenantId)
        ensures
            final(self).counts() == old(self).counts().remove(tenant@),
            final(self).stalls() == old(self).stalls(),
    {
        proof { use_type_invariant(&*self); }
        let mut counts: StrMap<u32> = StrMap::new();
        std::mem::swap(&mut counts, &mut self.zero_window_count);
        counts.remove(tenant);
        self.zero_window_count = counts;
    }
}

/// The count a tenant reaches after `k` consecutive zero-window heartbeats
/// from `c`, where reaching the threshold forces the window open and clears it.
pub open spec fn count_after_zero_heartbeats(c: u32, k: nat) -> u32
    decreases k,
{
    if k == 0 {
        c
    } else {
        let prev = count_after_zero_heartbeats(c, (k - 1) as nat);
        if prev + 1 >= MAX_ZERO_WINDOW_COUNT { 0 } else { (prev + 1) as u32 }
    }
}

/// A tenant whose window stays at zero is forced open within
/// `MAX_ZERO_WINDOW_COUNT` heartbeats: from any reachable count, the count
/// cycles back to zero after at most that many heartbeats.
pub proof fn lemma_forced_open_within_bound(c: u32)
    requires
        c < MAX_ZERO_WINDOW_COUNT,
    ensures
        count_after_zero_heartbeats(c, (MAX_ZERO_WINDOW_COUNT - c) as nat) == 0,
        forall|k: nat| 0 < k < MAX_ZERO_WINDOW_COUNT - c ==> #[trigger] count_after_zero_heartbeats(c, k) == c + k,
{
    reveal_with_fuel(count_after_zero_heartbeats, 7);
    assert forall|k: nat| 0 < k < MAX_ZERO_WINDOW_COUNT - c implies #[trigger] count_after_zero_heartbeats(c, k) == c + k by {
        lemma_count_grows(c, k);
    }
    lemma_count_grows(c, (MAX_ZERO_WINDOW_COUNT - c - 1) as nat);
}

proof fn lemma_count_grows(c: u32, k: nat)
    requires
        c < MAX_ZERO_WINDOW_COUNT,
        k < MAX_ZERO_WINDOW_COUNT - c,
    ensures
        count_after_zero_heartbeats(c, k) == c + k,
    decreases k,
{
    if k > 0 {
        lemma_count_grows(c, (k - 1) as nat);
    }
}

/// After a reset, the tenant's next zero-window heartbeat is counted as the
/// first of a new run (and forces nothing open), while every other tenant's
/// count stays as it was.
pub proof fn lemma_reset_restarts_count(counts: Map<Seq<char>, u32>, tenant: Seq<char>, other: Seq<char>)
    requires
        other != tenant,
    ensures
        count_in(counts.remove(tenant), tenant) + 1 == 1,
        1 < MAX_ZERO_WINDOW_COUNT,
        count_in(counts.remove(tenant), other) == count_in(counts, other),
{
}

} // verus!
