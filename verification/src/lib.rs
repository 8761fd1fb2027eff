//! Verified core of the Lumina platform: cross-chain light-client logic,
//! congestion control for the pool, relay endpoint attestation and caching,
//! the dead-letter queue of the social service, and the state machines of
//! the vesting and grant contracts.

pub mod aggregate_cache;
pub mod attestation;
mod clock;
pub mod congestion;
pub mod contracts;
pub mod cross_chain;
pub mod net;
pub mod social;
pub mod str_map;
