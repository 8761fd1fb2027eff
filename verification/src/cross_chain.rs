//! Light-client logic for following other chains: chain parameters,
//! a bounded header cache, committee synchronisation and finality.

pub mod committee_sync;
pub mod finality_verifier;
pub mod header_cache;
pub mod metrics;
pub mod types;
