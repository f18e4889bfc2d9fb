//! The durable stream subsystem: an append-only, offset-addressed message
//! log with ETag versioning, conditional requests and range reads.

pub mod protocol;
pub mod store;
pub mod types;
