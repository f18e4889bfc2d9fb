//! The LAN peer fabric: UDP-broadcast discovery, a presence-tracked peer
//! table, dual-transport message routing with an offline queue, and the
//! dispatch of incoming peer-to-peer messages.

pub mod state;
pub mod types;
pub mod wire;
