//! Command dispatch for a multiplayer game server.
//!
//! A raw text line is split into whitespace-delimited tokens, matched against
//! a tree of literal keywords and typed arguments, and handed together with the
//! parsed arguments to the executor bound to the node where the walk ends.

pub mod command;
pub mod entity;
pub mod number;
pub mod protocol;
pub mod server;
pub mod text;
