//! A registry of named public keys with a nonce-based challenge-response
//! handshake: clients register a name and a key, receive a single-use nonce,
//! and prove possession of the matching secret key by sending a message that
//! opens under that nonce.
pub mod encoding;
pub mod laws;
mod table;
pub mod state;
