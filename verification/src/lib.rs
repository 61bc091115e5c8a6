//! A verified relational projection of an append-only, occasionally forking
//! chain of blocks.
//!
//! The crate models the persisted schema (headers, uncles, proposals,
//! transactions, dependency rows, cells, content-addressed data blobs and
//! scripts) as an in-memory store with exact contracts, implements the
//! persistence engine (block insertion with parent verification, block
//! removal with reference-counted garbage collection) on top of it, and
//! drives ingestion with a verified synchronization state machine.

pub mod codec;
pub mod effects;
pub mod error;
pub mod hashing;
pub mod laws;
pub mod roundtrip;
pub mod rows;
pub mod storage;
pub mod sync;
pub mod types;
