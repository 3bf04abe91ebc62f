//! The commands that come with the server.

pub mod cmd_xp;
