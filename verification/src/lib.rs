//! Client-library core for a metadata-driven blockchain node interface:
//! deterministic binary encoding of calls and storage keys, extrinsic
//! construction and signing, and a transaction-status state machine that
//! turns a stream of node-reported statuses into one terminal outcome.
//!
//! Network transport (the RPC connection itself) lives outside this
//! library; every function here is a pure computation over plain values,
//! so a caller performs the I/O and hands the results in.

pub mod client;
pub mod codec;
pub mod hashing;
pub mod metadata;
pub mod extrinsic;
pub mod progress;
