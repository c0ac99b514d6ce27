//! The decision core of a two-party text chat over one TCP connection.
//!
//! One thread watches three event sources (the terminal, a listening socket
//! and the peer connection) through a level-triggered readiness poll. This
//! library holds every decision that thread takes: which source an event
//! belongs to, what to read next, what to forward, when a peer is taken on or
//! given up, and when the loop ends. It performs no I/O itself; the caller
//! carries out each requested operation and reports the result back.

pub mod chat;
pub mod effect;
pub mod endpoint;
pub mod event;
pub mod laws;
pub mod notice;
pub mod readiness;
pub mod registry;
