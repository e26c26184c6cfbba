//! Event decoding, incremental scanning and position reconciliation for an
//! indexer of a decentralized-exchange contract on an EVM chain.
//!
//! Every function here is pure: raw logs, block heights and store contents
//! come in as plain values, decoded events, store writes and the next cursor
//! go out.

pub mod abi_util;
pub mod types;
pub mod raw_log;
pub mod pools;
pub mod positions;
pub mod events;
pub mod chronology;
pub mod ranged;
pub mod ambient;
pub mod scope;
pub mod active;
pub mod keys;
pub mod scanner;
pub mod store;
pub mod curve;
pub mod mirror;
pub mod proto_text;
