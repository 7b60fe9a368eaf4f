//! The concurrency core of a line-oriented discard service, as a pure state
//! machine.
//!
//! Sockets stay outside: a driver performs each non-blocking `accept` or
//! `read` and hands the outcome to [`server::DiscardServer`], which owns the
//! hand-off queue, the per-connection line buffers and every decision about
//! what is enqueued, dispatched or dropped.

pub mod line;
pub mod peer;
pub mod server;
pub mod scheduler;
pub mod laws;
