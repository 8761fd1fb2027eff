//! Signed relay tickets: what a relay presents to show it may advertise an
//! endpoint for a peer.

pub mod crypto;
pub mod relay_ticket;
