//! Per-server settings as the oldest schema kept them (with the server's name).
use vstd::prelude::*;
use vstd::string::*;

verus! {

/// The settings kept for one server.
pub struct GuildData {
    pub id: u64,
    pub name: Option<String>,
    pub prefix: String,
    pub volume: u8,
}

impl GuildData {
    /// The settings a server called `name` starts with: prefix `?`, full volume.
    pub fn from_guild(id: u64, name: &str) -> (g: GuildData)
        ensures
            g.id == id,
            g.name matches Some(n) && n@ == name@,
            g.prefix@ == "?"@,
            g.volume == 100,
    {
        GuildData { id, name: Some(String::from_str(name)), prefix: String::from_str("?"), volume: 100 }
    }
}

} // verus!
