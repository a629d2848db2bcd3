//! Verified core of a Wake-on-LAN relay: session tokens, MAC parsing and
//! magic packets, the wire envelope, the session and pending-wake registries,
//! and the decisions of the relay and of the per-connection session.

pub mod agent;
pub mod auth;
pub mod ctx;
pub mod decimal;
pub mod error;
pub mod mac;
pub mod registry;
pub mod relay;
pub mod session;
pub mod token;
pub mod wire;
