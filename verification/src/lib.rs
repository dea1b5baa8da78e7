//! Core of a game-account verification service: a bounds-checked wire codec,
//! the per-identity verification records and the table that owns them, the
//! request/response message catalog of the coordination protocol, and the
//! parsers for the interaction front end's text inputs.
//!
//! All I/O (sockets, the chat gateway, the snapshot file, the clock) lives in
//! the surrounding application; the functions here take plain values and are
//! verified against their contracts.

pub mod codec;
pub mod config;
pub mod parse;
pub mod protocol;
pub mod record;
pub mod table;
pub mod text;
