//! Helpers that work on a message and a command line alone.

pub mod sed;
pub mod title;
pub mod weeb;
