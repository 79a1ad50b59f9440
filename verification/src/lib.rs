//! An in-memory key-value store that speaks the RESP wire protocol.
//!
//! The crate holds the request-execution engine: the frame decoder, the
//! command builders, the keyspace with its blocking-pop waiter queues, and
//! the reply encoders. Sockets, tasks and timers live with the caller.

pub mod ascii;
pub mod channel;
pub mod command;
pub mod connection;
pub mod key_value_store;
pub mod laws;
pub mod model;
pub mod parser;
pub mod resp;
pub mod round_trip;
