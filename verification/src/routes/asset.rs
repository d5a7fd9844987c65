//! The asset routes.
use vstd::prelude::*;
use crate::row::{lookup, position};
use crate::routes::transaction::{IDENTITY_LEN, INVALID_DESTINATION, INVALID_SOURCE};
use crate::text::same_text;

verus! {

/// Asset names are at most this many bytes.
pub const MAX_ASSET_NAME_LEN: usize = 8;
pub const INVALID_ASSET_NAME: &'static str = "Invalid Asset Name!";

/// What is wrong with an asset transfer: the name's length, then the
/// source's, then the destination's.
pub fn asset_transfer_error(asset_name: &str, source: &str, dest: &str) -> (r: Option<&'static str>)
    ensures
        r == if asset_name.len() > MAX_ASSET_NAME_LEN {
            Some(INVALID_ASSET_NAME)
        } else if source.len() != IDENTITY_LEN {
            Some(INVALID_SOURCE)
        } else if dest.len() != IDENTITY_LEN {
            Some(INVALID_DESTINATION)
        } else {
            None
        },
{
    if asset_name.len() > MAX_ASSET_NAME_LEN {
        Some(INVALID_ASSET_NAME)
    } else if source.len() != IDENTITY_LEN {
        Some(INVALID_SOURCE)
    } else if dest.len() != IDENTITY_LEN {
        Some(INVALID_DESTINATION)
    } else {
        None
    }
}

/// A balance row is listed when it has a balance that is neither empty nor "0".
pub fn holds_balance(row: &Vec<(String, String)>) -> (b: bool)
    ensures
        b == match lookup(row@, "balance"@) {
            Some(t) => t.len() > 0 && t != "0"@,
            None => false,
        },
{
    match position(row, "balance") {
        Some(i) => {
            let t = row[i].1.as_str();
            t.unicode_len() > 0 && !same_text(t, "0")
        },
        None => false,
    }
}

} // verus!
