//! An in-memory attribute-oriented entity store with a self-describing
//! schema, a composable query algebra, monotonic versioning with idempotent
//! upserts, and a change-watch subsystem that fans versioned before/after
//! events out to subscribers.
pub mod codec;
pub mod digits;
pub mod entity;
pub mod errors;
pub mod laws;
pub mod query;
pub mod requests;
pub mod server;
pub mod store;
pub mod symbol;
pub mod validate;
pub mod values;
pub mod watch;
