// Three scenarios are deliberately not among these tests, because each
// contradicts tests that are:
// - `header_cache_256_bound` asks for 256 headers after 300 pushes with
//   heights 43 and 44 both still cached, but oldest-first eviction (see
//   `cache_evicts_oldest_when_full`) leaves heights 44 to 299.
// - `low_latency_no_drift` asks a header to be final 2000 ms after it was
//   stamped, but the sync timeout of a 2 s chain is 60000 ms
//   (`chain_config_fast_chain`, `not_yet_finalized`); its committee of
//   weights [2, 2, 2] also has no supermajority
//   (`supermajority_exact_threshold`).
// - `two_chain_latency_simulation` asks headers at most 20000 ms old to be
//   final under drift, whose grace timeout is 90000 ms, again with a
//   [2, 2, 2] committee. Its drift half is covered by
//   `latency_of_800ms_is_drift_on_both_chains`.

use lumina_core::cross_chain::committee_sync::{CommitteeMember, CommitteeState, MAX_BACKOFF_MS};
use lumina_core::cross_chain::finality_verifier::FinalityVerifier;
use lumina_core::cross_chain::header_cache::{Header, HeaderCache, MAX_CACHED_HEADERS};
use lumina_core::cross_chain::metrics::Metrics;
use lumina_core::cross_chain::types::{ChainConfig, TimestampMs};

fn dummy_header(height: u64, timestamp_ms: TimestampMs) -> Header {
    Header {
        height,
        timestamp_ms,
        hash: [height as u8; 32],
        parent_hash: [0u8; 32],
        is_finalized: false,
    }
}

fn make_member(id: u64, weight: u64, drift_ms: i64) -> CommitteeMember {
    CommitteeMember { id, weight, last_seen_ms: 0, clock_drift_ms: drift_ms }
}

fn make_committee(weights: &[u64]) -> CommitteeState {
    let members: Vec<CommitteeMember> = weights
        .iter()
        .enumerate()
        .map(|(i, w)| CommitteeMember { id: i as u64, weight: *w, last_seen_ms: 0, clock_drift_ms: 0 })
        .collect();
    CommitteeState::new(1, members)
}

#[test]
fn cache_evicts_oldest_when_full() {
    let mut cache = HeaderCache::new();
    for i in 0..257 {
        cache.push(dummy_header(i, i * 1000));
    }
    assert_eq!(cache.len(), MAX_CACHED_HEADERS);
    assert!(cache.get(0).is_none());
    assert!(cache.get(1).is_some());
    assert!(cache.get(256).is_some());
}

#[test]
fn mark_finalized() {
    let mut cache = HeaderCache::new();
    cache.push(dummy_header(1, 1000));
    assert!(cache.mark_finalized(1));
    assert!(cache.get(1).unwrap().is_finalized);
    assert!(!cache.mark_finalized(999));
}

#[test]
fn latest_header() {
    let mut cache = HeaderCache::new();
    assert!(cache.latest().is_none());
    cache.push(dummy_header(1, 1000));
    cache.push(dummy_header(2, 2000));
    assert_eq!(cache.latest().unwrap().height, 2);
}

#[test]
fn finalized_count() {
    let mut cache = HeaderCache::new();
    for i in 0..10 {
        cache.push(dummy_header(i, i * 1000));
    }
    assert_eq!(cache.finalized_count(), 0);
    cache.mark_finalized(3);
    cache.mark_finalized(7);
    assert_eq!(cache.finalized_count(), 2);
}

#[test]
fn header_cache_is_empty_and_duplicate_heights() {
    let mut cache = HeaderCache::new();
    assert!(cache.is_empty());
    cache.push(dummy_header(5, 1));
    cache.push(dummy_header(5, 2));
    assert!(!cache.is_empty());
    assert_eq!(cache.get(5).unwrap().timestamp_ms, 1);
    assert!(cache.mark_finalized(5));
    assert_eq!(cache.finalized_count(), 1);
}

#[test]
fn should_sync_respects_interval() {
    let cfg = ChainConfig::new(1, 2000);
    let members = vec![make_member(1, 1, 0)];
    let state = CommitteeState::new(1, members);
    assert!(state.should_sync(500, &cfg));
    assert!(state.should_sync(499, &cfg));
    assert!(state.should_sync(501, &cfg));
}

#[test]
fn should_sync_waits_one_interval_after_a_sync() {
    let cfg = ChainConfig::new(1, 2000);
    let members = vec![make_member(1, 1, 0)];
    let mut state = CommitteeState::new(1, members);
    let mut metrics = Metrics::new();
    state.record_sync_attempt(10_000, true, &mut metrics);
    assert!(!state.should_sync(10_499, &cfg));
    assert!(state.should_sync(10_500, &cfg));
}

#[test]
fn should_sync_waits_after_a_sync_at_time_zero() {
    let cfg = ChainConfig::new(1, 2000);
    let mut state = CommitteeState::new(1, vec![make_member(1, 1, 0)]);
    let mut metrics = Metrics::new();
    state.record_sync_attempt(0, true, &mut metrics);
    assert!(!state.should_sync(499, &cfg));
    assert!(state.should_sync(500, &cfg));
}

#[test]
fn should_sync_respects_backoff() {
    let cfg = ChainConfig::new(1, 2000);
    let members = vec![make_member(1, 1, 0)];
    let mut state = CommitteeState::new(1, members);
    let mut metrics = Metrics::new();

    state.record_sync_attempt(0, false, &mut metrics);
    assert_eq!(state.retry_backoff_ms, 2000);
    assert!(!state.should_sync(500, &cfg));
    assert!(state.should_sync(2000, &cfg));
}

#[test]
fn exponential_backoff_capped() {
    let members = vec![make_member(1, 1, 0)];
    let mut state = CommitteeState::new(1, members);
    let mut metrics = Metrics::new();

    for _ in 0..6 {
        state.record_sync_attempt(0, false, &mut metrics);
    }
    assert_eq!(state.retry_backoff_ms, MAX_BACKOFF_MS);
}

#[test]
fn detect_drift_threshold() {
    let cfg = ChainConfig::new(1, 2000);
    let members = vec![make_member(1, 1, 0), make_member(2, 1, 600)];
    let state = CommitteeState::new(1, members);
    assert!(state.detect_drift(&cfg));

    let members2 = vec![make_member(1, 1, 100), make_member(2, 1, 300)];
    let state2 = CommitteeState::new(1, members2);
    assert!(!state2.detect_drift(&cfg));
}

#[test]
fn detect_drift_extremes_and_empty() {
    let cfg = ChainConfig::new(1, 2000);
    let empty = CommitteeState::new(1, vec![]);
    assert!(!empty.detect_drift(&cfg));
    let wide = CommitteeState::new(1, vec![make_member(1, 1, i64::MIN), make_member(2, 1, i64::MAX)]);
    assert!(wide.detect_drift(&cfg));
    let exact = CommitteeState::new(1, vec![make_member(1, 1, -125), make_member(2, 1, 125)]);
    assert!(!exact.detect_drift(&cfg));
    let just_over = CommitteeState::new(1, vec![make_member(1, 1, -125), make_member(2, 1, 126)]);
    assert!(just_over.detect_drift(&cfg));
}

#[test]
fn latency_of_800ms_is_drift_on_both_chains() {
    let members = || vec![make_member(1, 2, 400), make_member(2, 2, 400), make_member(3, 2, 0)];
    let a = CommitteeState::new(1, members());
    let b = CommitteeState::new(2, members());
    assert!(a.detect_drift(&ChainConfig::new(1, 2000)));
    assert!(b.detect_drift(&ChainConfig::new(2, 15000)));
    let quiet = CommitteeState::new(1, vec![make_member(1, 2, 25), make_member(2, 2, 25), make_member(3, 2, 0)]);
    assert!(!quiet.detect_drift(&ChainConfig::new(1, 2000)));
}

#[test]
fn supermajority_weight_totaled() {
    let members = vec![make_member(1, 5, 0), make_member(2, 3, 0), make_member(3, 2, 0)];
    let state = CommitteeState::new(1, members);
    assert_eq!(state.total_weight, 10);
}

#[test]
fn supermajority_met() {
    let committee = make_committee(&[3, 3, 3]);
    assert!(FinalityVerifier::has_supermajority(&committee));
}

#[test]
fn supermajority_not_met() {
    let committee = make_committee(&[1, 1, 1]);
    assert!(!FinalityVerifier::has_supermajority(&committee));
}

#[test]
fn supermajority_exact_threshold() {
    let committee = make_committee(&[2, 2, 2]);
    assert!(!FinalityVerifier::has_supermajority(&committee));
}

#[test]
fn supermajority_uneven_weights() {
    assert!(FinalityVerifier::has_supermajority(&make_committee(&[5, 3, 2])));
    assert!(!FinalityVerifier::has_supermajority(&make_committee(&[4, 1, 1])));
}

#[test]
fn no_supermajority_prevents_finalization() {
    let mut metrics = Metrics::new();
    let config = ChainConfig::new(1, 2000);
    let committee = make_committee(&[1, 1, 1]);
    assert!(!FinalityVerifier::is_header_finalized(0, config.sync_timeout_ms + 1, &committee, &config, false, &mut metrics));
}

#[test]
fn supermajority_empty() {
    let committee = make_committee(&[]);
    assert!(!FinalityVerifier::has_supermajority(&committee));
}

#[test]
fn finalized_without_drift() {
    let mut metrics = Metrics::new();
    let config = ChainConfig::new(1, 2000);
    let committee = make_committee(&[3, 3, 3]);
    let header_time = 0;
    let now = config.sync_timeout_ms;

    assert!(FinalityVerifier::is_header_finalized(header_time, now, &committee, &config, false, &mut metrics));
}

#[test]
fn not_yet_finalized() {
    let mut metrics = Metrics::new();
    let config = ChainConfig::new(1, 2000);
    let committee = make_committee(&[3, 3, 3]);
    let header_time = 0;
    let now = config.sync_timeout_ms - 1;

    assert!(!FinalityVerifier::is_header_finalized(header_time, now, &committee, &config, false, &mut metrics));
    assert_eq!(metrics.finality_lag_ms(1), None);
}

#[test]
fn drift_extends_confirmation() {
    let mut metrics = Metrics::new();
    let config = ChainConfig::new(1, 2000);
    let committee = make_committee(&[3, 3, 3]);

    let header_time = 0;
    let normal_finalization = config.sync_timeout_ms;
    let grace_finalization = config.grace_timeout_ms();

    assert!(FinalityVerifier::is_header_finalized(
        header_time, normal_finalization, &committee, &config, false, &mut metrics,
    ));
    assert!(!FinalityVerifier::is_header_finalized(
        header_time, normal_finalization, &committee, &config, true, &mut metrics,
    ));
    assert!(FinalityVerifier::is_header_finalized(
        header_time, grace_finalization, &committee, &config, true, &mut metrics,
    ));
}

#[test]
fn metrics_record_and_read() {
    let mut m = Metrics::new();
    m.record_chain_finality_lag_ms(1, 4200);
    m.record_chain_sync_backoff_ms(1, 2000);
    assert_eq!(m.finality_lag_ms(1), Some(4200));
    assert_eq!(m.sync_backoff_ms(1), Some(2000));
    assert_eq!(m.finality_lag_ms(2), None);
}

#[test]
fn metrics_last_record_wins() {
    let mut m = Metrics::new();
    m.record_chain_finality_lag_ms(7, 1);
    m.record_chain_finality_lag_ms(7, -3);
    assert_eq!(m.finality_lag_ms(7), Some(-3));
    assert_eq!(m.sync_backoff_ms(7), None);
}

#[test]
fn chain_config_fast_chain() {
    let cfg = ChainConfig::new(1, 2000);
    assert_eq!(cfg.sync_timeout_ms, 60_000);
    assert_eq!(cfg.sync_interval_ms(), 500);
    assert_eq!(cfg.grace_timeout_ms(), 90_000);
    assert_eq!(cfg.max_clock_drift_ms, 500);
}

#[test]
fn chain_config_slow_chain() {
    let cfg = ChainConfig::new(2, 15_000);
    assert_eq!(cfg.sync_timeout_ms, 60_000);
    assert_eq!(cfg.sync_interval_ms(), 3_750);
    assert_eq!(cfg.grace_timeout_ms(), 90_000);
}

#[test]
fn chain_config_very_slow_chain() {
    let cfg = ChainConfig::new(3, 30_000);
    assert_eq!(cfg.sync_timeout_ms, 90_000);
    assert_eq!(cfg.sync_interval_ms(), 7_500);
    assert_eq!(cfg.grace_timeout_ms(), 135_000);
}

#[test]
fn chain_config_tiny_block_time_and_odd_timeout() {
    let cfg = ChainConfig::new(4, 3);
    assert_eq!(cfg.sync_interval_ms(), 1);
    let odd = ChainConfig { chain_id: 5, block_time_ms: 1, sync_timeout_ms: 61_001, max_clock_drift_ms: 500 };
    assert_eq!(odd.grace_timeout_ms(), 91_501);
    let huge = ChainConfig { chain_id: 6, block_time_ms: 1, sync_timeout_ms: u64::MAX, max_clock_drift_ms: 500 };
    assert_eq!(huge.grace_timeout_ms(), u64::MAX);
}

#[test]
fn sync_backoff_recovers() {
    let mut metrics = Metrics::new();
    let members = vec![make_member(1, 1, 0)];
    let mut committee = CommitteeState::new(1, members);

    committee.record_sync_attempt(1000, false, &mut metrics);
    assert_eq!(committee.sync_attempts, 1);
    assert_eq!(committee.retry_backoff_ms, 2000);

    committee.record_sync_attempt(3000, false, &mut metrics);
    assert_eq!(committee.sync_attempts, 2);
    assert_eq!(committee.retry_backoff_ms, 4000);

    committee.record_sync_attempt(7000, true, &mut metrics);
    assert_eq!(committee.sync_attempts, 0);
    assert_eq!(committee.retry_backoff_ms, 1000);
    assert_eq!(metrics.sync_backoff_ms(1), Some(1000));
}

#[test]
fn finality_lag_metric_recorded() {
    let mut metrics = Metrics::new();
    let config = ChainConfig::new(1, 2000);
    let members = vec![make_member(1, 3, 0), make_member(2, 3, 0), make_member(3, 3, 0)];
    let committee = CommitteeState::new(1, members);

    FinalityVerifier::is_header_finalized(0, config.sync_timeout_ms, &committee, &config, false, &mut metrics);

    let lag = metrics.finality_lag_ms(1);
    assert!(lag.is_some(), "finality lag metric should be recorded");
    assert!(lag.unwrap() >= config.sync_timeout_ms as i64);
}
