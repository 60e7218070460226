//! Verified core of a real-time chat relay.
//!
//! The library holds the logic that is worth proving: the hub that owns the
//! session and room tables (`server`), the pure command parser (`parser`),
//! the per-connection session state machine (`session`), a small echo
//! session (`echo`), and the laws that tie them together (`laws`).
//! Transport wiring (HTTP routes, websocket frames on the wire, timers)
//! stays outside the library and drives it with plain values.

use vstd::prelude::*;

pub mod echo;
pub mod laws;
pub mod parser;
pub mod server;
pub mod session;
pub mod user_error;
pub mod ws;

verus! {

/// Interval, in abstract time units, between two heartbeat pings.
pub const HEARTBEAT_INTERVAL: u64 = 5;

/// A session whose last activity lies further back than this is evicted.
pub const CLIENT_TIMEOUT: u64 = 10;

} // verus!
