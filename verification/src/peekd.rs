//! The `peekd` daemon's state: tunables read from the environment, the
//! per-PID sample rings, the watch list, and the request dispatcher.
//! Sockets, files, locks and the sampling timer belong to the caller.

pub mod tunables;
pub mod ring_store;
pub mod watch;
pub mod dispatch;
pub mod paths;
