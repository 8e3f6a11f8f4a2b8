//! Verified core of a line-oriented TCP broadcast chat server.
//!
//! The crate models the server's logic as plain, verified data: a bounded
//! fan-out bus with per-subscription cursors and lagging semantics, a
//! bounded line framer, the per-connection ingress/egress decision rules,
//! the idempotent shutdown flag, and the accept-loop state machine. The
//! unverified binary wires these to sockets and an async runtime.

pub mod accept;
pub mod bus;
pub mod framer;
pub mod handler;
pub mod message;
pub mod shutdown;
