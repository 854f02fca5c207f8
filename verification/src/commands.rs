//! The commands and triggers that come with the bot: for each, what it
//! answers, and what it asks of the history and of the quote store.

pub mod debug;
pub mod help;
pub mod leek;
pub mod playground;
pub mod quotes;
pub mod sed;
pub mod spotify;
pub mod title;
pub mod waifu;
