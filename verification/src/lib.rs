//! Synchronization engine for a match/player telemetry store.
//!
//! The library derives which records to fetch, deduplicates them against
//! what is already stored, plans rate-limit-aware retried batch fetches,
//! and commits fetched chunks with well-defined merge semantics.

pub mod blob;
pub mod cli;
pub mod candidates;
pub mod digits;
pub mod history;
pub mod ingest;
pub mod laws;
pub mod models;
pub mod report;
pub mod requests;
pub mod retry;
pub mod steam;
pub mod store;
pub mod strutil;
pub mod sync;
