//! Server settings: volume and greet sounds.
use vstd::prelude::*;
use vstd::string::*;
use crate::models::sound::Sound;
use crate::text::{decimal, push_decimal};

verus! {

/// The reply to the volume command: the new volume where one was given, else
/// the current volume with a hint.
pub open spec fn volume_reply_text(requested: Option<usize>, current: u8) -> Seq<char> {
    match requested {
        Some(v) => "Volume changed to "@ + decimal(v as nat) + "%"@,
        None => "Current server volume: "@ + decimal(current as nat)
            + "%. Change the volume with `/volume <new volume>`"@,
    }
}

/// See [`volume_reply_text`].
pub fn volume_reply(requested: Option<usize>, current: u8) -> (res: String)
    ensures
        res@ == volume_reply_text(requested, current),
{
    match requested {
        Some(v) => {
            let mut s = String::from_str("Volume changed to ");
            push_decimal(&mut s, v as u64);
            s.append("%");
            s
        },
        None => {
            let mut s = String::from_str("Current server volume: ");
            push_decimal(&mut s, current as u64);
            s.append("%. Change the volume with `/volume <new volume>`");
            s
        },
    }
}

/// The reply to setting a greet sound: the sound found, or that none was.
pub open spec fn greet_set_reply_text(sound: Option<Sound>) -> Seq<char> {
    match sound {
        Some(s) => "Greet sound has been set to "@ + s.name@ + " (ID "@ + decimal(s.id as nat) + ")"@,
        None => "Could not find a sound by that name."@,
    }
}

/// See [`greet_set_reply_text`].
pub fn greet_set_reply(sound: Option<&Sound>) -> (res: String)
    ensures
        res@ == greet_set_reply_text(match sound { Some(s) => Some(*s), None => None }),
{
    match sound {
        Some(s) => {
            let mut r = String::from_str("Greet sound has been set to ");
            r.append(s.name.as_str());
            r.append(" (ID ");
            push_decimal(&mut r, s.id as u64);
            r.append(")");
            r
        },
        None => String::from_str("Could not find a sound by that name."),
    }
}

/// The reply to unsetting a greet sound.
pub fn greet_unset_reply() -> (res: String)
    ensures
        res@ == "Greet sound has been unset"@,
{
    String::from_str("Greet sound has been unset")
}

/// The reply to turning greet sounds on or off in a server.
pub fn greet_toggle_reply(enabled: bool) -> (res: String)
    ensures
        res@ == (if enabled {
            "Greet sounds have been enable in this server"@
        } else {
            "Greet sounds have been disabled in this server"@
        }),
{
    if enabled {
        String::from_str("Greet sounds have been enable in this server")
    } else {
        String::from_str("Greet sounds have been disabled in this server")
    }
}

} // verus!
