//! Verified core of the SoundFX Discord sound-effects bot: command parsing,
//! permission rules, paging and the decisions each command makes.
pub mod cmds;
pub mod consts;
pub mod error;
pub mod event_handlers;
pub mod framework;
pub mod guild_data;
pub mod guilddata;
pub mod keyed;
pub mod models;
pub mod pattern;
pub mod sound;
pub mod text;
pub mod utils;
