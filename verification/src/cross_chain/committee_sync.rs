use vstd::prelude::*;

use crate::cross_chain::metrics::Metrics;
use crate::cross_chain::types::{
    spec_sync_interval, ChainConfig, ChainId, CommitteeWeight, TimestampMs,
};

verus! {

/// Backoff after a successful sync, and the first one after a failure doubles it.
pub const INITIAL_BACKOFF_MS: u64 = 1_000;

/// The longest a failing sync backs off.
pub const MAX_BACKOFF_MS: u64 = 30_000;

pub struct CommitteeMember {
    pub id: u64,
    pub weight: CommitteeWeight,
    pub last_seen_ms: TimestampMs,
    pub clock_drift_ms: i64,
}

pub struct CommitteeState {
    pub chain_id: ChainId,
    pub members: Vec<CommitteeMember>,
    pub total_weight: CommitteeWeight,
    pub last_sync_ms: TimestampMs,
    pub sync_attempts: u32,
    pub retry_backoff_ms: u64,
    /// Whether any sync attempt has been recorded.
    pub attempted: bool,
}

/// The summed weight of `members`.
pub open spec fn total_weight_of(members: Seq<CommitteeMember>) -> int
    decreases members.len(),
{
    if members.len() == 0 {
        0
    } else {
        total_weight_of(members.drop_last()) + members.last().weight
    }
}

/// The smallest clock drift among non-empty `members`.
pub open spec fn min_drift(members: Seq<CommitteeMember>) -> i64
    decreases members.len(),
{
    if members.len() <= 1 {
        members[0].clock_drift_ms
    } else {
        let rest = min_drift(members.drop_last());
        if members.last().clock_drift_ms < rest { members.last().clock_drift_ms } else { rest }
    }
}

/// The largest clock drift among non-empty `members`.
pub open spec fn max_drift(members: Seq<CommitteeMember>) -> i64
    decreases members.len(),
{
    if members.len() <= 1 {
        members[0].clock_drift_ms
    } else {
        let rest = max_drift(members.drop_last());
        if members.last().clock_drift_ms > rest { members.last().clock_drift_ms } else { rest }
    }
}

/// The drift spread of non-empty `members`, saturating at `i64::MAX`.
pub open spec fn drift_spread(members: Seq<CommitteeMember>) -> int {
    let d = max_drift(members) - min_drift(members);
    if d > i64::MAX { i64::MAX as int } else { d }
}

/// Time since the last sync, zero when `now_ms` lies before it.
pub open spec fn elapsed_since(now_ms: u64, last_ms: u64) -> int {
    if now_ms >= last_ms { now_ms - last_ms } else { 0 }
}

/// Whether a committee in the given sync state is due to be polled: one
/// with no sync attempt recorded yet is due at once; otherwise a failed
/// committee waits out its backoff, and any committee waits one sync
/// interval after its last attempt.
pub open spec fn spec_should_sync(
    attempted: bool,
    sync_attempts: u32,
    retry_backoff_ms: u64,
    last_sync_ms: u64,
    now_ms: u64,
    block_time_ms: u64,
) -> bool {
    let elapsed = elapsed_since(now_ms, last_sync_ms);
    if !attempted {
        true
    } else if sync_attempts > 0 && elapsed < retry_backoff_ms {
        false
    } else {
        elapsed >= spec_sync_interval(block_time_ms)
    }
}

/// The backoff after one more failure: doubled, capped at the maximum.
pub open spec fn next_backoff(backoff_ms: u64) -> u64 {
    if 2 * backoff_ms <= MAX_BACKOFF_MS { (2 * backoff_ms) as u64 } else { MAX_BACKOFF_MS }
}

/// `k` consecutive failures starting from `b`.
pub open spec fn backoff_after(b: u64, k: nat) -> u64
    decreases k,
{
    if k == 0 { b } else { next_backoff(backoff_after(b, (k - 1) as nat)) }
}

proof fn lemma_min_le_max(members: Seq<CommitteeMember>)
    requires
        members.len() > 0,
    ensures
        min_drift(members) <= max_drift(members),
    decreases members.len(),
{
    if members.len() > 1 {
        lemma_min_le_max(members.drop_last());
    }
}

impl CommitteeState {
    pub fn new(chain_id: ChainId, members: Vec<CommitteeMember>) -> (s: Self)
        requires
            total_weight_of(members@) <= u64::MAX,
        ensures
            s.chain_id == chain_id,
            s.members@ == members@,
            s.total_weight == total_weight_of(members@),
            s.last_sync_ms == 0,
            s.sync_attempts == 0,
            s.retry_backoff_ms == INITIAL_BACKOFF_MS,
            !s.attempted,
    {
        let total_weight = sum_weights(&members);
        CommitteeState {
            chain_id,
            members,
            total_weight,
            last_sync_ms: 0,
            sync_attempts: 0,
            retry_backoff_ms: INITIAL_BACKOFF_MS,
            attempted: false,
        }
    }

    pub fn should_sync(&self, now_ms: TimestampMs, config: &ChainConfig) -> (r: bool)
        ensures
            r == spec_should_sync(
                self.attempted,
                self.sync_attempts,
                self.retry_backoff_ms,
                self.last_sync_ms,
                now_ms,
                config.block_time_ms,
            ),
    {
        if !self.attempted {
            return true;
        }
        let elapsed = now_ms.saturating_sub(self.last_sync_ms);
        if self.sync_attempts > 0 && elapsed < self.retry_backoff_ms {
            return false;
        }
        elapsed >= config.sync_interval_ms()
    }

    /// Records a sync attempt at `now_ms`: success resets the backoff,
    /// failure counts the attempt and doubles the backoff up to its cap.
    /// The resulting backoff is recorded in `metrics`.
    pub fn record_sync_attempt(&mut self, now_ms: TimestampMs, success: bool, metrics: &mut Metrics)
        requires
            !success ==> old(self).sync_attempts < u32::MAX,
        ensures
            final(self).chain_id == old(self).chain_id,
            final(self).members@ == old(self).members@,
            final(self).total_weight == old(self).total_weight,
            final(self).last_sync_ms == now_ms,
            final(self).attempted,
            success ==> final(self).sync_attempts == 0,
            success ==> final(self).retry_backoff_ms == INITIAL_BACKOFF_MS,
            !success ==> final(self).sync_attempts == old(self).sync_attempts + 1,
            !success ==> final(self).retry_backoff_ms == next_backoff(old(self).retry_backoff_ms),
            final(self).retry_backoff_ms <= MAX_BACKOFF_MS,
            final(metrics).sync_backoffs() == old(metrics).sync_backoffs().insert(
                old(self).chain_id,
                final(self).retry_backoff_ms as i64,
            ),
            final(metrics).finality_lags() == old(metrics).finality_lags(),
    {
        self.last_sync_ms = now_ms;
        self.attempted = true;
        if success {
            self.sync_attempts = 0;
            self.retry_backoff_ms = INITIAL_BACKOFF_MS;
        } else {
            self.sync_attempts = self.sync_attempts + 1;
            self.retry_backoff_ms = if self.retry_backoff_ms <= MAX_BACKOFF_MS / 2 {
                self.retry_backoff_ms * 2
            } else {
                MAX_BACKOFF_MS
            };
        }
        metrics.record_chain_sync_backoff_ms(self.chain_id, self.retry_backoff_ms as i64);
    }

    /// Whether the spread of the members' clock drifts exceeds half the
    /// chain's drift tolerance; never for an empty committee.
    pub fn detect_drift(&self, config: &ChainConfig) -> (r: bool)
        ensures
            r == (self.members@.len() > 0 && drift_spread(self.members@) > config.max_clock_drift_ms / 2),
    {
        if self.members.len() == 0 {
            return false;
        }
        let mut lo = self.members[0].clock_drift_ms;
        let mut hi = self.members[0].clock_drift_ms;
        let mut i: usize = 1;
        while i < self.members.len()
            invariant
                1 <= i <= self.members.len(),
                lo == min_drift(self.members@.take(i as int)),
                hi == max_drift(self.members@.take(i as int)),
            decreases self.members.len() - i,
        {
            assert(self.members@.take(i + 1).drop_last() == self.members@.take(i as int));
            let d = self.members[i].clock_drift_ms;
            if d < lo {
                lo = d;
            }
            if d > hi {
                hi = d;
            }
            i = i + 1;
        }
        assert(self.members@.take(i as int) == self.members@);
        proof { lemma_min_le_max(self.members@); }
        let wide = hi as i128 - lo as i128;
        let spread: u64 = if wide > i64::MAX as i128 { i64::MAX as u64 } else { wide as u64 };
        spread > config.max_clock_drift_ms / 2
    }
}

/// The summed weight of the members, which the caller knows to fit.
pub fn sum_weights(members: &Vec<CommitteeMember>) -> (total: u64)
    requires
        total_weight_of(members@) <= u64::MAX,
    ensures
        total == total_weight_of(members@),
{
    let mut total: u64 = 0;
    let mut i: usize = 0;
    while i < members.len()
        invariant
            i <= members.len(),
            total == total_weight_of(members@.take(i as int)),
            total_weight_of(members@) <= u64::MAX,
        decreases members.len() - i,
    {
        assert(members@.take(i + 1).drop_last() == members@.take(i as int));
        proof { lemma_prefix_weight_le(members@, i + 1); }
        total = total + members[i].weight;
        i = i + 1;
    }
    assert(members@.take(i as int) == members@);
    total
}

/// A prefix of a committee never weighs more than the whole committee.
pub proof fn lemma_prefix_weight_le(members: Seq<CommitteeMember>, k: int)
    requires
        0 <= k <= members.len(),
    ensures
        0 <= total_weight_of(members.take(k)) <= total_weight_of(members),
    decreases members.len() - k,
{
    lemma_weight_nonneg(members.take(k));
    if k < members.len() {
        lemma_prefix_weight_le(members, k + 1);
        assert(members.take(k + 1).drop_last() == members.take(k));
    } else {
        assert(members.take(k) == members);
    }
}

proof fn lemma_weight_nonneg(members: Seq<CommitteeMember>)
    ensures
        total_weight_of(members) >= 0,
    decreases members.len(),
{
    if members.len() > 0 {
        lemma_weight_nonneg(members.drop_last());
    }
}

/// Repeated failures never push the backoff past its cap, and from the
/// initial backoff five failures reach the cap.
pub proof fn lemma_backoff_capped(b: u64, k: nat)
    requires
        b <= MAX_BACKOFF_MS,
    ensures
        backoff_after(b, k) <= MAX_BACKOFF_MS,
        backoff_after(INITIAL_BACKOFF_MS, 5) == MAX_BACKOFF_MS,
        k >= 5 ==> backoff_after(INITIAL_BACKOFF_MS, k) == MAX_BACKOFF_MS,
    decreases k,
{
    reveal_with_fuel(backoff_after, 6);
    if k > 0 {
        lemma_backoff_capped(b, (k - 1) as nat);
        if k > 5 {
            lemma_backoff_capped(b, (k - 1) as nat);
        }
    }
}

} // verus!
