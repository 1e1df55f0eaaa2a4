//! Core services of a gateway that fronts a remote blockchain node:
//! a cost-weighted admission controller, a TTL/capacity-bounded response
//! cache, upstream connection retry planning, a block-sync progress
//! coordinator, and a webhook delivery engine with signed notifications.
//!
//! Every service keeps its state as plain values and takes the current
//! time as an argument, so all state transitions are verified; the
//! surrounding I/O (HTTP, sleeping, clocks) lives outside this crate.

pub mod cache;
pub mod client;
pub mod counters;
pub mod errors;
pub mod logging;
pub mod node;
pub mod rate_limit;
pub mod retry;
pub mod runes;
pub mod signing;
pub mod sync;
pub mod webhook;
