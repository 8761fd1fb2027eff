use vstd::prelude::*;

use crate::clock::now_millis;
use crate::congestion::types::{
    CongestionEvent, CongestionMetrics, TenantId, PROBE_BASE_INTERVAL_MS, PROBE_MAX_INTERVAL_MS,
};
use crate::str_map::StrMap;

verus! {

/// Probe backoff of one stalled tenant.
#[derive(Clone, Copy)]
pub struct ProbeState {
    pub current_interval_ms: u64,
    pub attempt: u32,
    pub last_probe_at_ms: Option<u64>,
}

/// The interval doubled, capped at the maximum.
pub open spec fn backed_off(interval_ms: u64) -> u64 {
    if 2 * interval_ms > PROBE_MAX_INTERVAL_MS { PROBE_MAX_INTERVAL_MS } else { (2 * interval_ms) as u64 }
}

/// The interval of the next probe after `attempt` probes: the first probe
/// keeps the current interval, every later one doubles it up to the maximum.
pub open spec fn next_interval(attempt: u32, interval_ms: u64) -> u64 {
    if attempt == 0 { interval_ms } else { backed_off(interval_ms) }
}

/// Whether a probe is due at `now_ms`: always before the first probe,
/// afterwards once the current interval has elapsed.
pub open spec fn probe_due(s: ProbeState, now_ms: u64) -> bool {
    match s.last_probe_at_ms {
        None => true,
        Some(last) => (if now_ms >= last { now_ms - last } else { 0 }) >= s.current_interval_ms,
    }
}

/// Whether `tenant` is tracked in `states` and due a probe at `now_ms`.
pub open spec fn tenant_due(states: Map<Seq<char>, ProbeState>, tenant: Seq<char>, now_ms: u64) -> bool {
    states.contains_key(tenant) && probe_due(states[tenant], now_ms)
}

/// The starting probe state.
pub open spec fn fresh_probe_state() -> ProbeState {
    ProbeState { current_interval_ms: PROBE_BASE_INTERVAL_MS, attempt: 0, last_probe_at_ms: None }
}

/// Every tracked interval lies between the base and the maximum interval.
pub open spec fn intervals_bounded(states: Map<Seq<char>, ProbeState>) -> bool {
    forall|t: Seq<char>| states.contains_key(t) ==> PROBE_BASE_INTERVAL_MS <= #[trigger] states[t].current_interval_ms
        <= PROBE_MAX_INTERVAL_MS
}

/// The largest tracked interval, or the base interval when none is tracked.
pub open spec fn max_interval(s: Seq<(String, ProbeState)>) -> u64
    decreases s.len(),
{
    if s.len() == 0 {
        PROBE_BASE_INTERVAL_MS
    } else if s.len() == 1 {
        s[0].1.current_interval_ms
    } else {
        let rest = max_interval(s.drop_last());
        if s.last().1.current_interval_ms > rest { s.last().1.current_interval_ms } else { rest }
    }
}

impl ProbeState {
    pub fn new() -> (s: Self)
        ensures
            s == fresh_probe_state(),
    {
        ProbeState { current_interval_ms: PROBE_BASE_INTERVAL_MS, attempt: 0, last_probe_at_ms: None }
    }

    /// Counts the attempt; from the second attempt on, the interval doubles
    /// up to the maximum.
    pub fn backoff(&mut self) -> (interval_ms: u64)
        requires
            old(self).attempt < u32::MAX,
            old(self).current_interval_ms <= PROBE_MAX_INTERVAL_MS,
        ensures
            final(self).attempt == old(self).attempt + 1,
            final(self).current_interval_ms == next_interval(old(self).attempt, old(self).current_interval_ms),
            final(self).last_probe_at_ms == old(self).last_probe_at_ms,
            interval_ms == final(self).current_interval_ms,
    {
        if self.attempt > 0 {
            let next = self.current_interval_ms * 2;
            if next > PROBE_MAX_INTERVAL_MS {
                self.current_interval_ms = PROBE_MAX_INTERVAL_MS;
            } else {
                self.current_interval_ms = next;
            }
        }
        self.attempt = self.attempt + 1;
        self.current_interval_ms
    }

    pub fn reset(&mut self)
        ensures
            *final(self) == fresh_probe_state(),
    {
        self.current_interval_ms = PROBE_BASE_INTERVAL_MS;
        self.attempt = 0;
        self.last_probe_at_ms = None;
    }

    pub fn should_send_probe(&self, now_ms: u64) -> (b: bool)
        ensures
            b == probe_due(*self, now_ms),
    {
        match self.last_probe_at_ms {
            None => true,
            Some(last) => now_ms.saturating_sub(last) >= self.current_interval_ms,
        }
    }
}

/// Schedules window probes of stalled tenants with exponential backoff.
pub struct ProbeScheduler {
    tenants: StrMap<ProbeState>,
}

impl ProbeScheduler {
    #[verifier::type_invariant]
    spec fn bounded(self) -> bool {
        intervals_bounded(self.tenants.view_map())
    }

    /// The probe state of each tracked tenant.
    pub closed spec fn states(&self) -> Map<Seq<char>, ProbeState> {
        self.tenants.view_map()
    }

    /// The tracked tenants with their states, in the order they were first seen.
    pub closed spec fn tenant_entries(&self) -> Seq<(String, ProbeState)> {
        self.tenants.entries()
    }

    pub fn new() -> (s: Self)
        ensures
            s.states() == Map::<Seq<char>, ProbeState>::empty(),
    {
        ProbeScheduler { tenants: StrMap::new() }
    }

    /// A zero window backs the tenant's probe interval off (starting from a
    /// fresh state for a new tenant) and reports the probe to send.
    pub fn on_zero_window(&mut self, tenant: &TenantId) -> (event: Option<CongestionEvent>)
        requires
            old(self).states().contains_key(tenant@) ==> old(self).states()[tenant@].attempt < u32::MAX,
        ensures
            ({
                let before = if old(self).states().contains_key(tenant@) {
                    old(self).states()[tenant@]
                } else {
                    fresh_probe_state()
                };
                let after = ProbeState {
                    current_interval_ms: next_interval(before.attempt, before.current_interval_ms),
                    attempt: (before.attempt + 1) as u32,
                    last_probe_at_ms: before.last_probe_at_ms,
                };
                &&& final(self).states() == old(self).states().insert(tenant@, after)
                &&& event == Some(CongestionEvent::ProbeSent { tenant_id: *tenant, backoff_ms: after.current_interval_ms })
            }),
            PROBE_BASE_INTERVAL_MS <= final(self).states()[tenant@].current_interval_ms <= PROBE_MAX_INTERVAL_MS,
            event matches Some(CongestionEvent::ProbeSent { backoff_ms, .. })
                && PROBE_BASE_INTERVAL_MS <= backoff_ms <= PROBE_MAX_INTERVAL_MS,
    {
        proof { use_type_invariant(&*self); }
        let mut state = match self.tenants.get(tenant) {
            Some(s) => *s,
            None => ProbeState::new(),
        };
        let interval = state.backoff();
        let mut tenants = StrMap::new();
        std::mem::swap(&mut tenants, &mut self.tenants);
        tenants.insert(tenant.clone(), state);
        self.tenants = tenants;
        Some(CongestionEvent::ProbeSent { tenant_id: tenant.clone(), backoff_ms: interval })
    }

    /// A non-zero ACK resets a tracked tenant's probe state.
    pub fn on_non_zero_ack(&mut self, tenant: &TenantId)
        ensures
            old(self).states().contains_key(tenant@) ==> final(self).states() == old(self).states().insert(
                tenant@,
                fresh_probe_state(),
            ),
            !old(self).states().contains_key(tenant@) ==> final(self).states() == old(self).states(),
    {
        proof { use_type_invariant(&*self); }
        if let Some(i) = self.tenants.position(tenant) {
            let mut state = *self.tenants.value_at(i);
            state.reset();
            let mut tenants = StrMap::new();
            std::mem::swap(&mut tenants, &mut self.tenants);
            tenants.set_value_at(i, state);
            self.tenants = tenants;
        }
    }

    /// Whether a tracked tenant is due a probe now, by the wall clock: what
    /// `should_probe_at` gives at the clock's reading.
    pub fn should_probe(&self, tenant: &TenantId) -> (b: bool)
        ensures
            exists|now_ms: u64| b == #[trigger] tenant_due(self.states(), tenant@, now_ms),
            b ==> self.states().contains_key(tenant@),
    {
        let now_ms = now_millis();
        let b = self.should_probe_at(tenant, now_ms);
        assert(b == tenant_due(self.states(), tenant@, now_ms));
        b
    }

    /// Whether a tracked tenant is due a probe at `now_ms`; never for an
    /// untracked tenant.
    pub fn should_probe_at(&self, tenant: &TenantId, now_ms: u64) -> (b: bool)
        ensures
            b == (self.states().contains_key(tenant@) && probe_due(self.states()[tenant@], now_ms)),
    {
        match self.tenants.get(tenant) {
            Some(s) => s.should_send_probe(now_ms),
            None => false,
        }
    }

    /// Records that a probe was sent to a tracked tenant now, by the wall clock.
    pub fn record_probe_sent(&mut self, tenant: &TenantId)
        ensures
            old(self).states().contains_key(tenant@) ==> {
                &&& final(self).states().contains_key(tenant@)
                &&& final(self).states()[tenant@].last_probe_at_ms is Some
                &&& final(self).states()[tenant@].current_interval_ms == old(self).states()[tenant@].current_interval_ms
                &&& final(self).states()[tenant@].attempt == old(self).states()[tenant@].attempt
                &&& final(self).states().remove(tenant@) == old(self).states().remove(tenant@)
            },
            !old(self).states().contains_key(tenant@) ==> final(self).states() == old(self).states(),
    {
        let now_ms = now_millis();
        self.record_probe_sent_at(tenant, now_ms);
    }

    /// Records that a probe was sent to a tracked tenant at `now_ms`.
    pub fn record_probe_sent_at(&mut self, tenant: &TenantId, now_ms: u64)
        ensures
            old(self).states().contains_key(tenant@) ==> final(self).states() == old(self).states().insert(
                tenant@,
                ProbeState { last_probe_at_ms: Some(now_ms), ..old(self).states()[tenant@] },
            ),
            !old(self).states().contains_key(tenant@) ==> final(self).states() == old(self).states(),
    {
        proof { use_type_invariant(&*self); }
        if let Some(i) = self.tenants.position(tenant) {
            let mut state = *self.tenants.value_at(i);
            state.last_probe_at_ms = Some(now_ms);
            let mut tenants = StrMap::new();
            std::mem::swap(&mut tenants, &mut self.tenants);
            tenants.set_value_at(i, state);
            self.tenants = tenants;
        }
    }

    /// The tenant's current probe interval in milliseconds; the base
    /// interval for an untracked tenant.
    pub fn current_interval(&self, tenant: &TenantId) -> (ms: u64)
        ensures
            ms == if self.states().contains_key(tenant@) {
                self.states()[tenant@].current_interval_ms
            } else {
                PROBE_BASE_INTERVAL_MS
            },
    {
        match self.tenants.get(tenant) {
            Some(s) => s.current_interval_ms,
            None => PROBE_BASE_INTERVAL_MS,
        }
    }

    /// Reports the largest probe interval among tracked tenants.
    pub fn metrics(&self) -> (m: CongestionMetrics)
        ensures
            m.probe_backoff_interval_ms == max_interval(self.tenant_entries()),
            m.zero_window_stalls_prevented == 0,
            m.total_zero_window_ack_suppressed == 0,
    {
        let n = self.tenants.len();
        let mut best: u64 = PROBE_BASE_INTERVAL_MS;
        let mut i: usize = 0;
        while i < n
            invariant
                n == self.tenants.entries().len(),
                i <= n,
                best == max_interval(self.tenants.entries().take(i as int)),
            decreases n - i,
        {
            assert(self.tenants.entries().take(i + 1).drop_last() == self.tenants.entries().take(i as int));
            let v = self.tenants.value_at(i).current_interval_ms;
            if i == 0 || v > best {
                best = v;
            }
            i = i + 1;
        }
        assert(self.tenants.entries().take(i as int) == self.tenants.entries());
        CongestionMetrics {
            zero_window_stalls_prevented: 0,
            probe_backoff_interval_ms: best,
            total_zero_window_ack_suppressed: 0,
        }
    }
}

/// The probe interval after `k` zero windows in a row from a fresh state.
pub open spec fn interval_after(k: nat) -> u64
    decreases k,
{
    if k <= 1 { PROBE_BASE_INTERVAL_MS } else { backed_off(interval_after((k - 1) as nat)) }
}

/// The probe intervals of a stalled tenant run 5s, 10s, 20s, then stay at
/// the 30s cap, never leaving the base..max range.
pub proof fn lemma_probe_backoff_sequence(k: nat)
    ensures
        interval_after(1) == 5_000,
        interval_after(2) == 10_000,
        interval_after(3) == 20_000,
        k >= 4 ==> interval_after(k) == PROBE_MAX_INTERVAL_MS,
        PROBE_BASE_INTERVAL_MS <= interval_after(k) <= PROBE_MAX_INTERVAL_MS,
    decreases k,
{
    reveal_with_fuel(interval_after, 5);
    if k > 0 {
        lemma_probe_backoff_sequence((k - 1) as nat);
    }
}

/// A zero window seen after `k - 1` probes with the interval of the
/// `(k - 1)`-th step leaves the interval of the `k`-th step: successive zero
/// windows from a fresh state walk the sequence above.
pub proof fn lemma_zero_window_step(k: nat)
    requires
        1 <= k <= u32::MAX,
    ensures
        next_interval((k - 1) as u32, interval_after((k - 1) as nat)) == interval_after(k),
{
    reveal_with_fuel(interval_after, 2);
}

} // verus!
