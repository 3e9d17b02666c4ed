//! The records the bot keeps: sounds and per-server settings.
pub mod guild_data;
pub mod sound;
