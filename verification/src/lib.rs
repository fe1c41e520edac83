//! An in-memory job store driven by message passing, together with a
//! cron-like matcher that decides whether a scheduled job is due at a
//! given point in time.
//!
//! The store itself is a plain value: one map from key to versioned
//! job envelope, with one operation per command of the store's
//! protocol. A host program owns the event loop around it (channels,
//! tasks) and feeds commands in one at a time, which keeps the map
//! free of locks.

pub mod config;
pub mod hashing;
pub mod job_store;
pub mod keys;
pub mod models;
