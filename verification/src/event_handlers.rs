//! Reacting to Discord events: voice channel changes, new servers, and tracks
//! that loop.
use vstd::prelude::*;
use vstd::string::*;
use crate::text::{decimal, push_decimal};

verus! {

/// Restarts a looping track when it ends.
pub struct RestartTrack;

impl RestartTrack {
    /// A track event restarts its track only when it is about exactly one track.
    pub fn restarts(track_count: usize) -> (res: bool)
        ensures
            res == (track_count == 1),
    {
        track_count == 1
    }
}

/// What a change of someone's voice state calls for.
#[derive(Debug, PartialEq, Eq, Structural, Clone, Copy)]
pub enum VoiceUpdate {
    /// Someone left `channel` of `guild`: the bot leaves if it is alone there.
    LeaveIfAlone { guild: u64, channel: u64 },
    /// Someone joined `channel` of `guild`: their greet sound may be played.
    Greet { guild: u64, channel: u64 },
    /// Nothing to do.
    Ignore,
}

/// Handles the bot's Discord events.
pub struct Handler;

impl Handler {
    /// Sorts a voice state change: with an earlier state, leaving a channel
    /// in a server (no new channel) may leave the bot alone; without one,
    /// joining a channel in a server may call for a greet sound.
    pub fn classify_voice_update(
        had_old: bool,
        old_channel: Option<u64>,
        guild: Option<u64>,
        new_channel: Option<u64>,
    ) -> (res: VoiceUpdate)
        ensures
            res == (if had_old {
                if guild is Some && new_channel is None && old_channel is Some {
                    VoiceUpdate::LeaveIfAlone { guild: guild->0, channel: old_channel->0 }
                } else {
                    VoiceUpdate::Ignore
                }
            } else if guild is Some && new_channel is Some {
                VoiceUpdate::Greet { guild: guild->0, channel: new_channel->0 }
            } else {
                VoiceUpdate::Ignore
            }),
    {
        if had_old {
            match (guild, new_channel, old_channel) {
                (Some(g), None, Some(c)) => VoiceUpdate::LeaveIfAlone { guild: g, channel: c },
                _ => VoiceUpdate::Ignore,
            }
        } else {
            match (guild, new_channel) {
                (Some(g), Some(c)) => VoiceUpdate::Greet { guild: g, channel: c },
                _ => VoiceUpdate::Ignore,
            }
        }
    }

    /// The bot leaves a channel whose members (where they could be counted)
    /// are at most one.
    pub fn should_leave(member_count: Option<usize>) -> (res: bool)
        ensures
            res == (match member_count { Some(c) => c <= 1, None => true }),
    {
        match member_count {
            Some(c) => c <= 1,
            None => true,
        }
    }

    /// The greet sound to play for someone joining: their join sound, where
    /// the server allows greet sounds.
    pub fn greet_sound(allow_greets: bool, join_sound: Option<u32>) -> (res: Option<u32>)
        ensures
            res == (if allow_greets { join_sound } else { None }),
    {
        if allow_greets {
            join_sound
        } else {
            None
        }
    }
}

/// The shard that serves a server: its ID without the low 22 bits, modulo the
/// shard count.
pub open spec fn shard_of(guild_id: u64, shard_count: u64) -> u64 {
    ((guild_id >> 22u64) % shard_count) as u64
}

/// The shard that serves a server (see [`shard_of`]).
pub fn shard_id(guild_id: u64, shard_count: u64) -> (res: u64)
    requires
        shard_count > 0,
    ensures
        res == shard_of(guild_id, shard_count),
{
    (guild_id >> 22u64) % shard_count
}

/// How many of `guilds` the shard `shard` serves.
pub open spec fn count_on_shard(guilds: Seq<u64>, shard_count: u64, shard: u64) -> nat
    decreases guilds.len(),
{
    if guilds.len() == 0 {
        0
    } else {
        count_on_shard(guilds.drop_last(), shard_count, shard)
            + if shard_of(guilds.last(), shard_count) == shard { 1nat } else { 0nat }
    }
}

/// The figures the bot reports for its shard when it joins a new server.
pub struct ShardStats {
    pub server_count: u64,
    pub shard_id: u64,
    pub shard_count: u64,
}

/// The figures for the shard of `guild_id`: how many of the cached servers it
/// serves, which shard it is, and how many shards there are.
pub fn shard_stats(guild_id: u64, cached_guilds: &Vec<u64>, shard_count: u64) -> (res: ShardStats)
    requires
        shard_count > 0,
    ensures
        res.shard_id == shard_of(guild_id, shard_count),
        res.server_count == count_on_shard(cached_guilds@, shard_count, res.shard_id),
        res.shard_count == shard_count,
{
    let current = shard_id(guild_id, shard_count);
    let mut count: u64 = 0;
    let mut i: usize = 0;
    while i < cached_guilds.len()
        invariant
            i <= cached_guilds@.len(),
            shard_count > 0,
            count as nat == count_on_shard(cached_guilds@.take(i as int), shard_count, current),
            count <= i,
        decreases cached_guilds@.len() - i,
    {
        assert(cached_guilds@.take(i + 1).drop_last() =~= cached_guilds@.take(i as int));
        assert(cached_guilds@.take(i + 1).last() == cached_guilds@[i as int]);
        if shard_id(cached_guilds[i], shard_count) == current {
            count = count + 1;
        }
        i = i + 1;
    }
    assert(cached_guilds@.take(cached_guilds@.len() as int) =~= cached_guilds@);
    ShardStats { server_count: count, shard_id: current, shard_count }
}

/// Where the bot's shard figures are posted.
pub fn stats_url(bot_id: u64) -> (res: String)
    ensures
        res@ == "https://top.gg/api/bots/"@ + decimal(bot_id as nat) + "/stats"@,
{
    let mut s = String::from_str("https://top.gg/api/bots/");
    push_decimal(&mut s, bot_id);
    s.append("/stats");
    s
}

} // verus!
