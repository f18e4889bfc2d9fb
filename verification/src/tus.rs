//! The resumable-upload subsystem: the tus protocol's store, header
//! handling and error mapping.

pub mod protocol;
pub mod store;
pub mod types;
