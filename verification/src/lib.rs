//! An in-memory publish/subscribe API server core.
//!
//! The library models a small query/mutation/subscription surface over a
//! single entity kind, together with the real-time delivery path that fans a
//! created entity out to subscribers: a bounded-history event bus, a
//! subscription executor, and a per-connection session state machine.

pub mod bus;
pub mod context;
pub mod database;
pub mod executor;
pub mod frames;
pub mod models;
pub mod schema;
pub mod session;
