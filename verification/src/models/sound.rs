//! Sounds: how a search term is read, and the values derived from a sound
//! record (its cache file, the transcoder's arguments).
use vstd::prelude::*;
use vstd::string::*;
use vstd::utf8::*;
use crate::text::{
    byte_len, byte_len_capped, decimal, decimal_string, is_ascii_digit, lemma_decimal_digits,
    lemma_parse_decimal, parse_u32, parse_u32_spec, push_decimal,
};

verus! {

/// A stored sound, as the `sounds` table describes it.
pub struct Sound {
    pub name: String,
    pub id: u32,
    pub public: bool,
    pub server_id: u64,
    pub uploader_id: Option<u64>,
}

impl Sound {
    /// A copy of this record.
    pub fn duplicate(&self) -> (res: Sound)
        ensures
            res == *self,
    {
        Sound {
            name: self.name.clone(),
            id: self.id,
            public: self.public,
            server_id: self.server_id,
            uploader_id: self.uploader_id,
        }
    }
}

/// Two sound records are the same sound when their IDs agree.
impl PartialEq for Sound {
    fn eq(&self, other: &Self) -> (res: bool) {
        self.id == other.id
    }
}

impl vstd::std_specs::cmp::PartialEqSpecImpl for Sound {
    open spec fn obeys_eq_spec() -> bool {
        true
    }

    open spec fn eq_spec(&self, other: &Sound) -> bool {
        self.id == other.id
    }
}

/// Whether `s` starts with `id:` in any letter case.
pub open spec fn has_id_prefix(s: Seq<char>) -> bool {
    &&& s.len() >= 3
    &&& (s[0] == 'i' || s[0] == 'I')
    &&& (s[1] == 'd' || s[1] == 'D')
    &&& s[2] == ':'
}

/// The sound ID that a search term names: `id:<n>` (any case, more than three
/// bytes long) names `<n>`, a bare number names itself.
pub open spec fn extract_id_spec(s: Seq<char>) -> Option<u32> {
    if byte_len(s) > 3 && has_id_prefix(s) {
        parse_u32_spec(s.skip(3))
    } else {
        parse_u32_spec(s)
    }
}

/// Reads a sound ID from a search term.
///
/// A term counts as `id:`-prefixed when its lower-case form starts with `id:`;
/// only `i`/`I`, `d`/`D` and `:` lower-case to those three characters on their
/// own, so that is the test made here.
pub fn extract_id(s: &str) -> (res: Option<u32>)
    ensures
        res == extract_id_spec(s@),
{
    if byte_len_capped(s, 3) > 3 {
        let n = s.unicode_len();
        if n >= 3 {
            let c0 = s.get_char(0);
            let c1 = s.get_char(1);
            let c2 = s.get_char(2);
            if (c0 == 'i' || c0 == 'I') && (c1 == 'd' || c1 == 'D') && c2 == ':' {
                let rest = s.substring_char(3, n);
                assert(rest@ =~= s@.skip(3));
                return parse_u32(rest);
            }
        }
    }
    parse_u32(s)
}

/// How the sounds matching a search term are looked up.
pub enum SoundQuery {
    /// The sound with this ID.
    Id(u32),
    /// Sounds with exactly this name.
    Name(String),
    /// Sounds whose name contains this text.
    NameFragment(String),
}

/// The lookup that a search for `query` makes: by ID where the term names one,
/// otherwise by exact name (`strict`) or by name fragment.
pub fn sound_query(query: &str, strict: bool) -> (res: SoundQuery)
    ensures
        match extract_id_spec(query@) {
            Some(id) => res == SoundQuery::Id(id),
            None => if strict {
                res matches SoundQuery::Name(n) && n@ == query@
            } else {
                res matches SoundQuery::NameFragment(n) && n@ == query@
            },
        },
{
    match extract_id(query) {
        Some(id) => SoundQuery::Id(id),
        None => if strict {
            SoundQuery::Name(String::from_str(query))
        } else {
            SoundQuery::NameFragment(String::from_str(query))
        },
    }
}

/// An ID written as a number, or after `id:`, is read back as that ID.
pub proof fn lemma_id_terms(id: u32)
    ensures
        extract_id_spec(decimal(id as nat)) == Some(id),
        extract_id_spec(seq!['i', 'd', ':'] + decimal(id as nat)) == Some(id),
{
    let d = decimal(id as nat);
    lemma_parse_decimal(id as nat, u32::MAX as nat);
    lemma_decimal_digits(id as nat);
    let t = seq!['i', 'd', ':'] + d;
    assert(t.skip(3) =~= d);
    assert(!has_id_prefix(d)) by {
        if d.len() >= 3 {
            assert(is_ascii_digit(d[0]));
        }
    }
    assert(byte_len(t) > 3) by {
        assert(is_ascii_chars(t)) by {
            assert forall|i: int| 0 <= i < t.len() implies '\0' <= #[trigger] t[i] <= '\u{7f}' by {
                if i >= 3 {
                    assert(t[i] == d[i - 3]);
                }
            }
        }
        is_ascii_chars_encode_utf8(t);
    }
}

/// The directory used for cached sound files when none is configured.
pub open spec fn default_cache_dir() -> Seq<char> {
    "/tmp"@
}

/// The cache file of sound `id` under `location` (`/tmp` when none is configured).
pub fn cache_path(location: Option<&str>, id: u32) -> (res: String)
    ensures
        res@ == (match location {
            Some(l) => l@,
            None => default_cache_dir(),
        }) + "/sound-"@ + decimal(id as nat),
{
    let mut res = match location {
        Some(l) => String::from_str(l),
        None => String::from_str("/tmp"),
    };
    res.append("/sound-");
    push_decimal(&mut res, id as u64);
    res
}

/// The transcoder's arguments for turning the upload at `src_url` into Opus,
/// cut off at `max_size` bytes and written to standard output.
pub open spec fn transcode_args_spec(src_url: Seq<char>, max_size: u64) -> Seq<Seq<char>> {
    seq![
        "-i"@, src_url, "-loglevel"@, "error"@, "-f"@, "opus"@, "-fs"@,
        decimal(max_size as nat), "pipe:1"@,
    ]
}

/// The view of a list of strings.
pub open spec fn string_views(v: Seq<String>) -> Seq<Seq<char>> {
    v.map_values(|s: String| s@)
}

/// The transcoder's arguments for an upload (see [`transcode_args_spec`]).
pub fn transcode_args(src_url: &str, max_size: u64) -> (res: Vec<String>)
    ensures
        string_views(res@) =~= transcode_args_spec(src_url@, max_size),
{
    let mut v: Vec<String> = Vec::new();
    v.push(String::from_str("-i"));
    v.push(String::from_str(src_url));
    v.push(String::from_str("-loglevel"));
    v.push(String::from_str("error"));
    v.push(String::from_str("-f"));
    v.push(String::from_str("opus"));
    v.push(String::from_str("-fs"));
    v.push(decimal_string(max_size));
    v.push(String::from_str("pipe:1"));
    v
}

} // verus!
