//! Relay endpoints: the registry of relays, the attested endpoint cache and
//! the STUN binding handler that feeds it.

pub mod endpoint_cache;
pub mod relay_registry;
pub mod stun_bind;
