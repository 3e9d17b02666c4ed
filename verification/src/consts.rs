//! Configuration read from the environment, with its defaults.
use vstd::prelude::*;
use crate::text::{parse_u32, parse_u32_spec, parse_u64, parse_u64_spec};

verus! {

/// The largest upload accepted, in bytes, when none is configured.
pub open spec fn default_upload_max_size() -> Seq<char> {
    "2097152"@
}

/// The number of sounds a user may have without the Patreon role, when none is configured.
pub open spec fn default_max_sounds() -> Seq<char> {
    "8"@
}

/// The upload size limit: the configured value (or the default) read as a
/// number, `None` where it is not one.
pub fn upload_max_size(configured: Option<&str>) -> (res: Option<u64>)
    ensures
        res == parse_u64_spec(match configured { Some(c) => c@, None => default_upload_max_size() }),
{
    match configured {
        Some(c) => parse_u64(c),
        None => parse_u64("2097152"),
    }
}

/// The per-user sound limit: the configured value (or the default) read as a
/// number, `None` where it is not one.
pub fn max_sounds(configured: Option<&str>) -> (res: Option<u32>)
    ensures
        res == parse_u32_spec(match configured { Some(c) => c@, None => default_max_sounds() }),
{
    match configured {
        Some(c) => parse_u32(c),
        None => parse_u32("8"),
    }
}

/// A required ID setting (the Patreon server or role): `None` where it is
/// missing or not a number.
pub fn id_setting(configured: Option<&str>) -> (res: Option<u64>)
    ensures
        res == match configured { Some(c) => parse_u64_spec(c@), None => None },
{
    match configured {
        Some(c) => parse_u64(c),
        None => None,
    }
}

} // verus!
