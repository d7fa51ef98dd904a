//! Client-side codec and handshake state machine for the PostgreSQL
//! frontend/backend wire protocol, version 3.
//!
//! The crate turns a byte stream into typed protocol messages and back, and
//! sequences the startup handshake and the simple-query cycle. It performs no
//! I/O: callers hand it the bytes they have read and send the bytes it returns.
//!
//! - [`wire`] and [`cursor`]: fixed-width integers and zero-terminated
//!   strings, written to and read from a buffer.
//! - [`message`] and [`codec`]: messages, their encoding, and decoding one
//!   message from the front of a buffer.
//! - [`assembler`]: whole messages out of reads that end anywhere.
//! - [`handshake`], [`query`] and [`session`]: the state machines, moved one
//!   message at a time.
//! - [`params`], [`row`] and [`server_error`]: what the server's messages
//!   hold.

pub mod assembler;
pub mod codec;
pub mod cursor;
pub mod error;
pub mod handshake;
pub mod message;
pub mod params;
pub mod query;
pub mod row;
pub mod server_error;
pub mod session;
pub mod state;
pub mod wire;
