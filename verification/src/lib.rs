//! Chunked file-transfer session management.
//!
//! A client splits a file into fixed-size chunks and uploads them in any
//! order. The library tracks per-chunk receipt, hashes every chunk and the
//! reassembled whole, gates completion on all chunks having arrived, and
//! groups completed uploads into batches for later listing. All state and
//! rules live here, fully verified; the surrounding binary only moves bytes
//! between the network, the disk and this crate.

pub mod text;
pub mod digest;
pub mod clock;
pub mod errors;
pub mod store;
pub mod session;
pub mod batches;
pub mod registry;
pub mod ports;
pub mod display;
pub mod files;
pub mod api;
pub mod issue_tasks;
