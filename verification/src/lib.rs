//! Core of a blockchain indexing pipeline: a canonical data model for indexed
//! records, a durable-store model with idempotent upsert semantics, gauges and
//! counters for network health and throughput, a validator registry, and the
//! pipeline state machine with its fail-fast join rule.

use vstd::prelude::*;

pub mod api;
pub mod config;
pub mod indexer;
pub mod network;
pub mod storage;

verus! {

/// Error taxonomy of the pipeline.
///
/// `Config` is malformed configuration content; `Storage` is a connection,
/// schema or query failure of the durable store; `Engine` is an ingestion
/// engine failure, fatal to the whole pipeline; `Network` is a query failure
/// during health or validator polling, always recovered locally.
/// `AlreadyStarted` is returned by a second attempt to start the pipeline.
#[derive(Debug, Clone, PartialEq, Eq)]
pub enum SniError {
    Config(String),
    Storage(String),
    Engine(String),
    Network(String),
    AlreadyStarted,
}

} // verus!
