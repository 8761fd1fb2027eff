use vstd::prelude::*;

use crate::cross_chain::committee_sync::{elapsed_since, sum_weights, total_weight_of, CommitteeState};
use crate::cross_chain::metrics::Metrics;
use crate::cross_chain::types::{spec_grace_timeout, ChainConfig, TimestampMs};

verus! {

pub struct FinalityVerifier;

/// The weight per member that a committee's weight must exceed on average
/// for a supermajority.
pub const QUORUM_WEIGHT_PER_MEMBER: u64 = 2;

/// More than two thirds of `total` is present in `active`, and the `members`
/// carry more than `QUORUM_WEIGHT_PER_MEMBER` each on average.
pub open spec fn spec_has_supermajority(total: u64, active: int, members: nat) -> bool {
    &&& total != 0
    &&& active >= (2 * total) / 3 + 1
    &&& active > QUORUM_WEIGHT_PER_MEMBER * members
}

/// The period a header must age before it counts as final.
pub open spec fn confirmation_period(config: ChainConfig, drift: bool) -> u64 {
    if drift { spec_grace_timeout(config.sync_timeout_ms) } else { config.sync_timeout_ms }
}

/// Whether a header stamped `header_ms` is final at `now_ms`.
pub open spec fn spec_is_finalized(
    header_ms: u64,
    now_ms: u64,
    committee: CommitteeState,
    config: ChainConfig,
    drift: bool,
) -> bool {
    &&& spec_has_supermajority(committee.total_weight, total_weight_of(committee.members@), committee.members@.len())
    &&& elapsed_since(now_ms, header_ms) >= confirmation_period(config, drift)
}

impl FinalityVerifier {
    /// A header is final once the committee holds a supermajority and the
    /// confirmation period (the grace period under clock drift) has passed;
    /// the lag of a final header is recorded in `metrics`.
    pub fn is_header_finalized(
        header_timestamp_ms: TimestampMs,
        now_ms: TimestampMs,
        committee: &CommitteeState,
        config: &ChainConfig,
        sync_drift_detected: bool,
        metrics: &mut Metrics,
    ) -> (r: bool)
        requires
            2 * committee.total_weight <= u64::MAX,
            total_weight_of(committee.members@) <= u64::MAX,
        ensures
            r == spec_is_finalized(header_timestamp_ms, now_ms, *committee, *config, sync_drift_detected),
            r ==> final(metrics).finality_lags() == old(metrics).finality_lags().insert(
                config.chain_id,
                elapsed_since(now_ms, header_timestamp_ms) as i64,
            ),
            !r ==> final(metrics).finality_lags() == old(metrics).finality_lags(),
            final(metrics).sync_backoffs() == old(metrics).sync_backoffs(),
    {
        if !Self::has_supermajority(committee) {
            return false;
        }
        let confirmation = if sync_drift_detected {
            config.grace_timeout_ms()
        } else {
            config.sync_timeout_ms
        };
        let elapsed = now_ms.saturating_sub(header_timestamp_ms);
        if elapsed >= confirmation {
            metrics.record_chain_finality_lag_ms(config.chain_id, elapsed as i64);
            true
        } else {
            false
        }
    }

    /// Whether the members' weight exceeds two thirds of the total weight and
    /// averages more than `QUORUM_WEIGHT_PER_MEMBER` per member.
    pub fn has_supermajority(committee: &CommitteeState) -> (r: bool)
        requires
            2 * committee.total_weight <= u64::MAX,
            total_weight_of(committee.members@) <= u64::MAX,
        ensures
            r == spec_has_supermajority(committee.total_weight, total_weight_of(committee.members@), committee.members@.len()),
    {
        if committee.total_weight == 0 {
            return false;
        }
        let threshold = (2 * committee.total_weight) / 3 + 1;
        let active = sum_weights(&committee.members);
        let quorum = (QUORUM_WEIGHT_PER_MEMBER as u128) * (committee.members.len() as u128);
        active >= threshold && (active as u128) > quorum
    }
}

/// A header final at `now_ms` stays final at every later time.
pub proof fn lemma_finality_is_monotone(
    header_ms: u64,
    now_ms: u64,
    later_ms: u64,
    committee: CommitteeState,
    config: ChainConfig,
    drift: bool,
)
    requires
        now_ms <= later_ms,
        spec_is_finalized(header_ms, now_ms, committee, config, drift),
    ensures
        spec_is_finalized(header_ms, later_ms, committee, config, drift),
{
}

} // verus!
