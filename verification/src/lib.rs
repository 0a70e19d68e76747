//! Coordination core of a consumer group over a partitioned event log.
//!
//! The crate holds the rules by which a consumer reads its shards, commits
//! its progress behind a fencing token and is supervised by a per-host
//! coordinator. It performs no I/O: every function goes from plain values
//! to plain values, and the caller carries out the store and network calls
//! that the returned actions ask for. The durable row of progress and the
//! locks of the consumers are also held here in memory, as the rules say
//! they behave, so that the whole can be run and reasoned about without a
//! store.

pub mod commit;
pub mod config;
pub mod consumer_source;
pub mod coordinator;
pub mod lock;
pub mod shard_iterator;
pub mod source_laws;
pub mod supervisor;
pub mod types;
