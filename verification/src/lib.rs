//! A sans-I/O core for a D-Bus peer: the message codec, the authentication
//! handshake, the transport buffers and the connection coordinator, each with a
//! contract that Verus proves.
//!
//! The library never touches a socket. It says which bytes to write and takes
//! the bytes that were read; whoever owns the socket moves them.

pub mod ascii;
pub mod cell;
pub mod connection;
pub mod error;
pub mod guid;
pub mod handshake;
pub mod message;
pub mod message_field;
pub mod raw;
pub mod utils;
pub mod variant;
pub mod wire;
