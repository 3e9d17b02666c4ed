//! Joining voice channels and answering play requests.
use vstd::prelude::*;
use vstd::string::*;
use crate::models::sound::Sound;
use crate::text::{decimal, push_decimal};

verus! {

/// Whether joining `target` can reuse the server's existing call: only where
/// the bot is already in that channel and a call exists.
pub fn reuses_call(current_channel: Option<u64>, target: u64, has_call: bool) -> (res: bool)
    ensures
        res == (current_channel == Some(target) && has_call),
{
    match current_channel {
        Some(c) => c == target && has_call,
        None => false,
    }
}

/// The reply to a play request: the user must be in a voice channel, and a
/// sound must match the search.
pub open spec fn play_reply_text(in_voice: bool, sound: Option<Sound>) -> Seq<char> {
    if !in_voice {
        "You are not in a voice chat!"@
    } else {
        match sound {
            Some(s) => "Playing sound "@ + s.name@ + " with ID "@ + decimal(s.id as nat),
            None => "Couldn't find sound by term provided"@,
        }
    }
}

/// See [`play_reply_text`].
pub fn play_reply(in_voice: bool, sound: Option<&Sound>) -> (res: String)
    ensures
        res@ == play_reply_text(in_voice, match sound { Some(s) => Some(*s), None => None }),
{
    if !in_voice {
        String::from_str("You are not in a voice chat!")
    } else {
        match sound {
            Some(s) => {
                let mut r = String::from_str("Playing sound ");
                r.append(s.name.as_str());
                r.append(" with ID ");
                push_decimal(&mut r, s.id as u64);
                r
            },
            None => String::from_str("Couldn't find sound by term provided"),
        }
    }
}

/// The reply when the channel named for playing is a text channel.
pub fn not_voice_channel_reply() -> (res: String)
    ensures
        res@ == "The channel specified is not a voice channel."@,
{
    String::from_str("The channel specified is not a voice channel.")
}

} // verus!
