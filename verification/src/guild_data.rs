//! Per-server settings as the first schema kept them (no role setting).
use vstd::prelude::*;
use vstd::string::*;

verus! {

/// The settings kept for one server.
pub struct GuildData {
    pub id: u64,
    pub prefix: String,
    pub volume: u8,
    pub allow_greets: bool,
}

impl GuildData {
    /// The settings a server starts with: prefix `?`, full volume, greet
    /// sounds allowed.
    pub fn new(id: u64) -> (g: GuildData)
        ensures
            g.id == id,
            g.prefix@ == "?"@,
            g.volume == 100,
            g.allow_greets,
    {
        GuildData { id, prefix: String::from_str("?"), volume: 100, allow_greets: true }
    }
}

} // verus!
