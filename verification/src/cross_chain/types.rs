use vstd::prelude::*;

verus! {

pub type ChainId = u64;

pub type BlockTimeMs = u64;

pub type TimestampMs = u64;

pub type CommitteeWeight = u64;

/// The shortest confirmation period a chain is given, in milliseconds.
pub const MIN_SYNC_TIMEOUT_MS: u64 = 60_000;

/// The clock drift a committee may show before the grace period applies.
pub const DEFAULT_MAX_CLOCK_DRIFT_MS: u64 = 500;

/// Parameters of a followed chain.
pub struct ChainConfig {
    pub chain_id: ChainId,
    pub block_time_ms: BlockTimeMs,
    pub sync_timeout_ms: u64,
    pub max_clock_drift_ms: u64,
}

pub open spec fn max_u64(a: u64, b: u64) -> u64 {
    if a >= b { a } else { b }
}

/// The confirmation period of a chain: three blocks, but at least a minute.
pub open spec fn spec_sync_timeout(block_time_ms: u64) -> int {
    if 3 * block_time_ms >= MIN_SYNC_TIMEOUT_MS { 3 * block_time_ms } else { MIN_SYNC_TIMEOUT_MS as int }
}

/// How often the committee is polled: a quarter block, but at least 1 ms.
pub open spec fn spec_sync_interval(block_time_ms: u64) -> u64 {
    max_u64(block_time_ms / 4, 1)
}

/// One and a half confirmation periods, saturating at `u64::MAX`.
pub open spec fn spec_grace_timeout(sync_timeout_ms: u64) -> u64 {
    if sync_timeout_ms + sync_timeout_ms / 2 > u64::MAX {
        u64::MAX
    } else {
        (sync_timeout_ms + sync_timeout_ms / 2) as u64
    }
}

impl ChainConfig {
    pub fn new(chain_id: ChainId, block_time_ms: BlockTimeMs) -> (cfg: Self)
        requires
            3 * block_time_ms <= u64::MAX,
        ensures
            cfg.chain_id == chain_id,
            cfg.block_time_ms == block_time_ms,
            cfg.sync_timeout_ms == spec_sync_timeout(block_time_ms),
            cfg.max_clock_drift_ms == DEFAULT_MAX_CLOCK_DRIFT_MS,
    {
        let three_blocks = 3 * block_time_ms;
        let sync_timeout_ms = if three_blocks >= MIN_SYNC_TIMEOUT_MS {
            three_blocks
        } else {
            MIN_SYNC_TIMEOUT_MS
        };
        ChainConfig {
            chain_id,
            block_time_ms,
            sync_timeout_ms,
            max_clock_drift_ms: DEFAULT_MAX_CLOCK_DRIFT_MS,
        }
    }

    pub fn sync_interval_ms(&self) -> (r: u64)
        ensures
            r == spec_sync_interval(self.block_time_ms),
    {
        let quarter = self.block_time_ms / 4;
        if quarter >= 1 { quarter } else { 1 }
    }

    /// One and a half times the confirmation period, rounded down.
    pub fn grace_timeout_ms(&self) -> (r: u64)
        ensures
            r == spec_grace_timeout(self.sync_timeout_ms),
    {
        let half = self.sync_timeout_ms / 2;
        if self.sync_timeout_ms <= u64::MAX - half {
            self.sync_timeout_ms + half
        } else {
            u64::MAX
        }
    }
}

} // verus!
