//! Sounds as the first schema kept them (with a play count).
use vstd::prelude::*;
use vstd::string::*;
use crate::models::sound::{extract_id_spec, sound_query, string_views, SoundQuery};
use crate::text::{decimal, decimal_string};

verus! {

/// A stored sound, with the number of times it was played.
pub struct Sound {
    pub name: String,
    pub id: u32,
    pub plays: u32,
    pub public: bool,
    pub server_id: u64,
    pub uploader_id: Option<u64>,
}

impl Sound {
    /// A copy of this record.
    pub fn duplicate(&self) -> (res: Sound)
        ensures
            res == *self,
    {
        Sound {
            name: self.name.clone(),
            id: self.id,
            plays: self.plays,
            public: self.public,
            server_id: self.server_id,
            uploader_id: self.uploader_id,
        }
    }

    /// The lookup that a search for `query` makes (the same rules as for
    /// current sounds, see [`sound_query`]).
    pub fn search_query(query: &str, strict: bool) -> (res: SoundQuery)
        ensures
            match extract_id_spec(query@) {
                Some(id) => res == SoundQuery::Id(id),
                None => if strict {
                    res matches SoundQuery::Name(n) && n@ == query@
                } else {
                    res matches SoundQuery::NameFragment(n) && n@ == query@
                },
            },
    {
        sound_query(query, strict)
    }
}

/// The transcoder's arguments for an upload under this schema: Opus at
/// 28 kbit/s, cut off at the upload limit `max_size` (in bytes).
pub open spec fn transcode_args_spec(src_url: Seq<char>, max_size: u64) -> Seq<Seq<char>> {
    seq![
        "-i"@, src_url, "-loglevel"@, "error"@, "-b:a"@, "28000"@, "-f"@, "opus"@, "-fs"@,
        decimal(max_size as nat), "pipe:1"@,
    ]
}

/// See [`transcode_args_spec`].
pub fn transcode_args(src_url: &str, max_size: u64) -> (res: Vec<String>)
    ensures
        string_views(res@) =~= transcode_args_spec(src_url@, max_size),
{
    let mut v: Vec<String> = Vec::new();
    v.push(String::from_str("-i"));
    v.push(String::from_str(src_url));
    v.push(String::from_str("-loglevel"));
    v.push(String::from_str("error"));
    v.push(String::from_str("-b:a"));
    v.push(String::from_str("28000"));
    v.push(String::from_str("-f"));
    v.push(String::from_str("opus"));
    v.push(String::from_str("-fs"));
    v.push(decimal_string(max_size));
    v.push(String::from_str("pipe:1"));
    v
}

} // verus!
