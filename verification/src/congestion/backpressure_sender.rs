use vstd::prelude::*;

use crate::congestion::types::{CongestionMetrics, TenantId, WindowSize, ACK_SUPPRESSION_THRESHOLD};
use crate::str_map::StrMap;

verus! {

/// Suppresses ACKs of tenants that keep advertising a zero window.
pub struct BackpressureSender {
    zero_window_heartbeat_count: StrMap<u32>,
    total_suppressed: u64,
}

/// The consecutive zero-window count of a tenant, zero when untracked.
pub open spec fn count_of(counts: Map<Seq<char>, u32>, tenant: Seq<char>) -> u32 {
    if counts.contains_key(tenant) { counts[tenant] } else { 0 }
}

impl BackpressureSender {
    /// Consecutive zero-window ACKs seen per tenant.
    pub closed spec fn counts(&self) -> Map<Seq<char>, u32> {
        self.zero_window_heartbeat_count.view_map()
    }

    /// ACKs suppressed so far.
    pub closed spec fn suppressed(&self) -> u64 {
        self.total_suppressed
    }

    pub fn new() -> (s: Self)
        ensures
            s.counts() == Map::<Seq<char>, u32>::empty(),
            s.suppressed() == 0,
    {
        BackpressureSender { zero_window_heartbeat_count: StrMap::new(), total_suppressed: 0 }
    }

    /// A non-zero window clears the tenant's count and is never suppressed;
    /// a zero window counts one more, and is suppressed once the count
    /// passes the threshold.
    pub fn should_suppress_ack(&mut self, tenant: &TenantId, window: WindowSize) -> (suppressed: bool)
        requires
            window.size() == 0 ==> count_of(old(self).counts(), tenant@) < u32::MAX,
            window.size() == 0 && count_of(old(self).counts(), tenant@) + 1 > ACK_SUPPRESSION_THRESHOLD
                ==> old(self).suppressed() < u64::MAX,
        ensures
            window.size() != 0 ==> !suppressed && final(self).counts() == old(self).counts().remove(tenant@)
                && final(self).suppressed() == old(self).suppressed(),
            window.size() == 0 ==> {
                let c = count_of(old(self).counts(), tenant@) + 1;
                &&& final(self).counts() == old(self).counts().insert(tenant@, c as u32)
                &&& suppressed == (c > ACK_SUPPRESSION_THRESHOLD)
                &&& final(self).suppressed() == old(self).suppressed() + if suppressed { 1int } else { 0int }
            },
    {
        if !window.is_zero() {
            self.zero_window_heartbeat_count.remove(tenant);
            return false;
        }
        let previous = match self.zero_window_heartbeat_count.get(tenant) {
            Some(c) => *c,
            None => 0,
        };
        let count = previous + 1;
        self.zero_window_heartbeat_count.insert(tenant.clone(), count);
        if count > ACK_SUPPRESSION_THRESHOLD {
            self.total_suppressed = self.total_suppressed + 1;
            true
        } else {
            false
        }
    }

    /// Forgets a tenant's run of zero windows that has not yet reached
    /// suppression. A tenant already suppressed stays so: only a non-zero
    /// window it advertises ends its stall.
    pub fn reset(&mut self, tenant: &TenantId)
        ensures
            final(self).counts() == if count_of(old(self).counts(), tenant@) > ACK_SUPPRESSION_THRESHOLD {
                old(self).counts()
            } else {
                old(self).counts().remove(tenant@)
            },
            final(self).suppressed() == old(self).suppressed(),
    {
        let suppressing = match self.zero_window_heartbeat_count.get(tenant) {
            Some(c) => *c > ACK_SUPPRESSION_THRESHOLD,
            None => false,
        };
        if !suppressing {
            self.zero_window_heartbeat_count.remove(tenant);
        }
    }

    pub fn metrics(&self) -> (m: CongestionMetrics)
        ensures
            m.total_zero_window_ack_suppressed == self.suppressed(),
            m.zero_window_stalls_prevented == 0,
            m.probe_backoff_interval_ms == 0,
    {
        CongestionMetrics {
            zero_window_stalls_prevented: 0,
            probe_backoff_interval_ms: 0,
            total_zero_window_ack_suppressed: self.total_suppressed,
        }
    }
}

/// Starting from a cleared tenant, the first `ACK_SUPPRESSION_THRESHOLD`
/// zero-window ACKs go through and every later consecutive one is suppressed.
pub proof fn lemma_suppression_starts_after_threshold(k: nat)
    ensures
        (k + 1 > ACK_SUPPRESSION_THRESHOLD) <==> k >= ACK_SUPPRESSION_THRESHOLD,
{
}

} // verus!
