//! Per-server settings.
use vstd::prelude::*;
use vstd::string::*;

verus! {

/// The settings kept for one server (a row of the `servers` table).
pub struct GuildData {
    pub id: u64,
    pub prefix: String,
    pub volume: u8,
    pub allow_greets: bool,
    pub allowed_role: Option<u64>,
}

impl GuildData {
    /// The settings a server starts with when it is first seen: prefix `?`,
    /// full volume, greet sounds allowed, no role restriction.
    pub fn new(id: u64) -> (g: GuildData)
        ensures
            g.id == id,
            g.prefix@ == "?"@,
            g.volume == 100,
            g.allow_greets,
            g.allowed_role is None,
    {
        GuildData {
            id,
            prefix: String::from_str("?"),
            volume: 100,
            allow_greets: true,
            allowed_role: None,
        }
    }

    /// Stores a requested volume percentage; the setting holds one byte, so the
    /// value kept is the request modulo 256 (as `volume as u8` does).
    pub fn set_volume(&mut self, volume: usize)
        ensures
            final(self).volume as int == volume as int % 256,
            final(self).id == old(self).id,
            final(self).prefix == old(self).prefix,
            final(self).allow_greets == old(self).allow_greets,
            final(self).allowed_role == old(self).allowed_role,
    {
        self.volume = (volume % 256) as u8;
    }

    /// Turns greet sounds on or off for this server.
    pub fn set_allow_greets(&mut self, allow: bool)
        ensures
            final(self).allow_greets == allow,
            final(self).id == old(self).id,
            final(self).prefix == old(self).prefix,
            final(self).volume == old(self).volume,
            final(self).allowed_role == old(self).allowed_role,
    {
        self.allow_greets = allow;
    }
}

} // verus!
