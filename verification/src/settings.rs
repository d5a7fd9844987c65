//! The wallet's settings as read from its environment, with their defaults.
use vstd::prelude::*;
use crate::text::{parse_u64, parsed_u64, unsigned_value};

verus! {

pub const DEFAULT_HOST: &'static str = "127.0.0.1";
pub const DEFAULT_PORT: &'static str = "3000";
pub const DEFAULT_MIN_PEERS: usize = 3;

/// A text setting: its value when set, else the default.
pub fn text_setting(value: Option<&str>, default: &str) -> (s: String)
    ensures
        s@ == match value {
            Some(v) => v@,
            None => default@,
        },
{
    match value {
        Some(v) => String::from_str(v),
        None => String::from_str(default),
    }
}

/// The address the HTTP server listens on (`RUBIC_HOST`).
pub fn host_setting(value: Option<&str>) -> (s: String)
    ensures
        s@ == match value {
            Some(v) => v@,
            None => DEFAULT_HOST@,
        },
{
    text_setting(value, DEFAULT_HOST)
}

/// The port the HTTP server listens on (`RUBIC_PORT`).
pub fn port_setting(value: Option<&str>) -> (s: String)
    ensures
        s@ == match value {
            Some(v) => v@,
            None => DEFAULT_PORT@,
        },
{
    text_setting(value, DEFAULT_PORT)
}

/// What `str::parse::<usize>` gives for a text.
pub open spec fn parsed_usize(s: Seq<char>) -> Option<usize> {
    match unsigned_value(s) {
        Some(v) => if v <= usize::MAX {
            Some(v as usize)
        } else {
            None
        },
        None => None,
    }
}

/// The fewest peers to keep (`RUBIC_MIN_PEERS`): the value read as a
/// `usize`, else 3, whether it is unset or unreadable.
pub fn min_peers_setting(value: Option<&str>) -> (n: usize)
    ensures
        n == match value {
            Some(v) => match parsed_usize(v@) {
                Some(x) => x,
                None => DEFAULT_MIN_PEERS,
            },
            None => DEFAULT_MIN_PEERS,
        },
{
    match value {
        Some(v) => match parse_u64(v) {
            Some(x) => if x as u128 <= usize::MAX as u128 {
                x as usize
            } else {
                DEFAULT_MIN_PEERS
            },
            None => {
                assert(parsed_usize(v@) is None) by {
                    assert(usize::MAX <= u64::MAX);
                }
                DEFAULT_MIN_PEERS
            },
        },
        None => DEFAULT_MIN_PEERS,
    }
}

} // verus!
