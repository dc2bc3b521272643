//! Alarm evaluation and distribution server.
//!
//! The library holds the verified core of the server: the per-alarm state
//! machine, the acknowledgement path, the status projection with its
//! subscription fan-out, the client session protocol, the JSON event codec,
//! the history-store adapter and the configuration rules.  Network transports
//! (message broker, websocket listener) drive these functions from the
//! accompanying application crate.

pub mod alarm;
pub mod codec;
pub mod config;
pub mod digits;
pub mod history;
pub mod ingress;
pub mod kvmap;
pub mod projection;
pub mod session;
pub mod store;
pub mod strutil;
