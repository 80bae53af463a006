//! Packet protocol engine for the authentication tier of a classic
//! client/server MMO: a login server that authenticates a user and hands out
//! the list of character servers, and a character server that accepts the
//! hand-off and answers liveness pings.
//!
//! Everything here works on plain bytes and plain values. Sockets, tasks and
//! logging live with the caller, which feeds the bytes it has read to these
//! functions and writes back the bytes they return.

pub mod account;
pub mod character;
pub mod codec;
pub mod command;
pub mod credential;
pub mod listing;
pub mod login;
pub mod registry;
pub mod reply;
pub mod session;
pub mod text;
