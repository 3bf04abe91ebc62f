//! The entities that commands act on.

pub mod player;
