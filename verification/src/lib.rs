//! Client core for a live-streaming interaction platform: the binary frame
//! codec (length-prefixed, optionally zlib-compressed and recursively
//! nested), the connection session state machine with its heartbeat
//! schedule, the event queue delivered to a polling consumer, and the
//! supervisor that enforces at most one active session.
use vstd::prelude::*;

pub mod codec;
pub mod event;
pub mod heartbeat;
pub mod session;
pub mod signing;
pub mod supervisor;
