//! A node-ranking synchronizer library.
//!
//! The library holds the verified core of a service that periodically
//! fetches a ranked list of lightning-network node records from a remote
//! HTTP source and reconciles them into a relational store, while a read
//! endpoint serves the stored rows. Everything here is pure logic: unit
//! conversion from satoshis to bitcoin, epoch-to-UTC timestamp
//! conversion, record validation, the upsert semantics of reconciliation,
//! and the per-cycle failure isolation of the sync loop. The surrounding
//! I/O (HTTP client and server, the SQL store, the timer) lives outside
//! the library and hands it plain values.

pub mod config;
pub mod digits;
pub mod records;
pub mod render;
pub mod store;
pub mod sync;
pub mod timeconv;
pub mod units;

pub use config::{ApiContext, Config};
