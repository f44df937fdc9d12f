//! A verified core for a line-serving TCP service.
//!
//! The library holds everything the service decides: how a command line
//! is parsed and dispatched, the exact bytes of every response, and the
//! coordinator's bookkeeping of live sessions. The surrounding process
//! (sockets, tasks, logging) lives outside and only feeds events in and
//! carries actions out.

pub mod coordinator;
pub mod digits;
pub mod protocol;
pub mod store;
