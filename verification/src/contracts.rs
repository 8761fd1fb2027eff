//! State machines of the vesting and grant contracts. Each contract's
//! storage is held as plain values; every entry point is a transition from
//! the stored state, the caller's arguments and the ledger time to the next
//! state and a result. A call that fails leaves the state as it was, as the
//! ledger discards the writes of a failed invocation.

pub mod anti_reentry_guard;
pub mod common;
pub mod config_manager;
pub mod fraud_clawback;
pub mod lessor_registry;
pub mod milestone_vesting;
pub mod vesting;
pub mod vesting_nft;
pub mod virtual_accumulator;
