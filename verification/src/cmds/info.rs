//! The help and information texts.
use vstd::prelude::*;
use vstd::string::*;
use crate::text::{decimal, push_decimal};

verus! {

/// The list of commands that `/help` shows.
pub open spec fn help_text() -> Seq<char> {
    "__Info Commands__\n`/help` `/info`\n*run these commands with no options*\n\n__Play Commands__\n`/play` - Play a sound by name or ID\n`/queue` - Play sounds on queue instead of instantly\n`/loop` - Play a sound on loop\n`/disconnect` - Disconnect the bot\n`/stop` - Stop playback\n\n__Library Commands__\n`/upload` - Upload a sound file\n`/delete` - Delete a sound file\n`/download` - Download a sound file\n`/public` - Set a sound as public/private\n`/list server` - List sounds on this server\n`/list user` - List your sounds\n\n__Search Commands__\n`/search` - Search for public sounds by name\n`/random` - View random public sounds\n\n__Setting Commands__\n`/greet server set/unset` - Set or unset a join sound for just this server\n`/greet user set/unset` - Set or unset a join sound across all servers\n`/greet enable/disable` - Enable or disable join sounds on this server\n`/volume` - Change the volume\n\n__Advanced Commands__\n`/soundboard` - Create a soundboard"@
}

/// See [`help_text`].
pub fn help_description() -> (res: String)
    ensures
        res@ == help_text(),
{
    String::from_str("__Info Commands__\n`/help` `/info`\n*run these commands with no options*\n\n__Play Commands__\n`/play` - Play a sound by name or ID\n`/queue` - Play sounds on queue instead of instantly\n`/loop` - Play a sound on loop\n`/disconnect` - Disconnect the bot\n`/stop` - Stop playback\n\n__Library Commands__\n`/upload` - Upload a sound file\n`/delete` - Delete a sound file\n`/download` - Download a sound file\n`/public` - Set a sound as public/private\n`/list server` - List sounds on this server\n`/list user` - List your sounds\n\n__Search Commands__\n`/search` - Search for public sounds by name\n`/random` - View random public sounds\n\n__Setting Commands__\n`/greet server set/unset` - Set or unset a join sound for just this server\n`/greet user set/unset` - Set or unset a join sound across all servers\n`/greet enable/disable` - Enable or disable join sounds on this server\n`/volume` - Change the volume\n\n__Advanced Commands__\n`/soundboard` - Create a soundboard")
}

/// The text that `/info` shows for the bot with user ID `bot_id`: its invite
/// link, then who made it and where to find more.
pub open spec fn info_text(bot_id: u64) -> Seq<char> {
    "Invite me: https://discord.com/api/oauth2/authorize?client_id="@ + decimal(bot_id as nat)
        + "&permissions=3165184&scope=applications.commands%20bot\n\n**Welcome to SoundFX!**\nDeveloper: <@203532103185465344>\nFind me on https://discord.jellywx.com/ and on https://github.com/JellyWX :)\n\n**An online dashboard is available!** Visit https://soundfx.jellywx.com/dashboard\nThere is a maximum sound limit per user. This can be removed by subscribing at **https://patreon.com/jellywx**"@
}

/// See [`info_text`].
pub fn info_description(bot_id: u64) -> (res: String)
    ensures
        res@ == info_text(bot_id),
{
    let mut s = String::from_str("Invite me: https://discord.com/api/oauth2/authorize?client_id=");
    push_decimal(&mut s, bot_id);
    s.append("&permissions=3165184&scope=applications.commands%20bot\n\n**Welcome to SoundFX!**\nDeveloper: <@203532103185465344>\nFind me on https://discord.jellywx.com/ and on https://github.com/JellyWX :)\n\n**An online dashboard is available!** Visit https://soundfx.jellywx.com/dashboard\nThere is a maximum sound limit per user. This can be removed by subscribing at **https://patreon.com/jellywx**");
    s
}

} // verus!
