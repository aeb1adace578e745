//! Concurrent web content-discovery fuzzer: core library.
//!
//! The library holds the verified core of the scanner: the match/filter rule
//! engine, the shared result queue with its shutdown protocol, the stats
//! aggregator, the dispatch engine's retry and classification logic, and the
//! consumer's per-record evaluation and output formatting. I/O, the HTTP
//! client, terminal rendering and thread plumbing live outside the library
//! and hand it plain values.

pub mod args;
pub mod data_handler;
pub mod data_type;
pub mod dispatch;
pub mod params_parse;
pub mod queue;
pub mod rules;
pub mod stats;
pub mod text;
