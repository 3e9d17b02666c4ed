//! The decisions and replies of the bot's commands.
pub mod info;
pub mod manage;
pub mod play;
pub mod search;
pub mod settings;
