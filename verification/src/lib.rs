//! Verified core of a local-first LAN messaging and file-transfer backend.
//!
//! Three subsystems share this crate: a resumable-upload store speaking the
//! tus protocol, an append-only durable message stream with conditional
//! requests, and a LAN peer fabric with discovery, presence and offline
//! queueing. All state transitions and protocol decisions live here with
//! contracts; sockets, files and timers live in the surrounding application.

pub mod etag;
pub mod fabric;
pub mod json;
pub mod netdiscovery;
pub mod numstr;
pub mod platform;
pub mod seqx;
pub mod streams;
pub mod tus;
pub mod text;
