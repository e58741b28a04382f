//! Coordination and state layer of a chat relay on top of a key-value store:
//! a lock that admits one processing attempt per inbound message, and a
//! bounded window of recent conversation turns per user.
//!
//! Nothing here performs I/O. Each operation is a [`command::Command`] to send
//! to the store and a function that reads the store's [`command::Reply`]; the
//! module [`wire`] turns the one into a pipeline of the `redis` crate and
//! reads the other from what a connection hands back. The module [`store`]
//! states what the store does with a command, and the laws of the lock and
//! the window are proved against that statement. The module [`memory`]
//! carries commands out in memory, and [`processor`] sequences the handling
//! of one message: lock, read, completion, append, release.

pub mod command;
pub mod completion;
pub mod error;
pub mod lock;
pub mod memory;
pub mod message;
pub mod processor;
pub mod store;
pub mod text;
pub mod wire;
pub mod window;
pub mod window_laws;
