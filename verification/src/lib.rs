//! Chat-line dispatching for an IRC bot: command and trigger routing, a bounded
//! per-author message history, and the bookkeeping of a single-writer quote store.

pub mod bot;
pub mod bots;
pub mod commands;
pub mod config;
pub mod database;
pub mod history;
pub mod regex_util;
pub mod string_map;
pub mod text;
pub mod web;
