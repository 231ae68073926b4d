//! A small in-memory key-value server core: line framing, command decoding,
//! command dispatch over a key-value store, and key expiry.
pub mod bytes;
pub mod decoder;
pub mod instruction;
pub mod laws;
pub mod number;
pub mod reply;
pub mod session;
pub mod storage;
pub mod text;
