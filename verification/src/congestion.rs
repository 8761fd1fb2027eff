//! Zero-window congestion handling for pool tenants: forced window
//! recovery, exponential probe backoff and suppression of repeated ACKs.

pub mod backpressure_sender;
pub mod probe_scheduler;
pub mod types;
pub mod window_controller;
