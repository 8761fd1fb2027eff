//! Peer networking.

pub mod relay;
