use std::collections::HashMap;
use vstd::prelude::*;

use crate::cross_chain::types::ChainId;

verus! {

broadcast use vstd::std_specs::hash::group_hash_axioms;

/// Last recorded finality lag and sync backoff of each followed chain.
pub struct Metrics {
    chain_finality_lag_ms: HashMap<ChainId, i64>,
    chain_sync_backoff_ms: HashMap<ChainId, i64>,
}

impl Metrics {
    /// The recorded finality lag of each chain.
    pub closed spec fn finality_lags(&self) -> Map<ChainId, i64> {
        self.chain_finality_lag_ms@
    }

    /// The recorded sync backoff of each chain.
    pub closed spec fn sync_backoffs(&self) -> Map<ChainId, i64> {
        self.chain_sync_backoff_ms@
    }

    pub fn new() -> (m: Self)
        ensures
            m.finality_lags() == Map::<ChainId, i64>::empty(),
            m.sync_backoffs() == Map::<ChainId, i64>::empty(),
    {
        Metrics { chain_finality_lag_ms: HashMap::new(), chain_sync_backoff_ms: HashMap::new() }
    }

    pub fn record_chain_finality_lag_ms(&mut self, chain_id: ChainId, lag_ms: i64)
        ensures
            final(self).finality_lags() == old(self).finality_lags().insert(chain_id, lag_ms),
            final(self).sync_backoffs() == old(self).sync_backoffs(),
    {
        self.chain_finality_lag_ms.insert(chain_id, lag_ms);
    }

    pub fn record_chain_sync_backoff_ms(&mut self, chain_id: ChainId, backoff_ms: i64)
        ensures
            final(self).sync_backoffs() == old(self).sync_backoffs().insert(chain_id, backoff_ms),
            final(self).finality_lags() == old(self).finality_lags(),
    {
        self.chain_sync_backoff_ms.insert(chain_id, backoff_ms);
    }

    pub fn finality_lag_ms(&self, chain_id: ChainId) -> (r: Option<i64>)
        ensures
            r == (if self.finality_lags().contains_key(chain_id) {
                Some(self.finality_lags()[chain_id])
            } else {
                None
            }),
    {
        match self.chain_finality_lag_ms.get(&chain_id) {
            Some(v) => Some(*v),
            None => None,
        }
    }

    pub fn sync_backoff_ms(&self, chain_id: ChainId) -> (r: Option<i64>)
        ensures
            r == (if self.sync_backoffs().contains_key(chain_id) {
                Some(self.sync_backoffs()[chain_id])
            } else {
                None
            }),
    {
        match self.chain_sync_backoff_ms.get(&chain_id) {
            Some(v) => Some(*v),
            None => None,
        }
    }
}

/// A lag read back for a chain is the last one recorded for it, and
/// recording for one chain leaves every other chain's reading unchanged.
pub proof fn lemma_finality_lag_read_after_record(
    before: Map<ChainId, i64>,
    chain_id: ChainId,
    lag_ms: i64,
    other: ChainId,
)
    ensures
        before.insert(chain_id, lag_ms).contains_key(chain_id),
        before.insert(chain_id, lag_ms)[chain_id] == lag_ms,
        other != chain_id ==> before.insert(chain_id, lag_ms).contains_key(other)
            == before.contains_key(other),
        other != chain_id ==> before.insert(chain_id, lag_ms)[other] == before[other],
{
}

} // verus!
