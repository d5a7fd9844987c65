//! The transfer routes.
use vstd::prelude::*;
use crate::routes::MINPASSWORDLEN;

verus! {

/// Body of `POST /transfer`; the password may be empty when the wallet is
/// unlocked or the source seed is stored unencrypted.
#[derive(Debug, Clone)]
pub struct TransferRequest {
    pub source: String,
    pub dest: String,
    pub amount: u64,
    pub expiration: u32,
    pub password: String,
}

/// An identity's text is this many bytes.
pub const IDENTITY_LEN: usize = 60;
pub const INVALID_SOURCE: &'static str = "Invalid Source Identity!";
pub const INVALID_DESTINATION: &'static str = "Invalid Destination Identity!";
pub const NEED_PASSWORD: &'static str = "Must Enter A Password!";

/// What is wrong with a transfer's identities: the source's length, then the destination's.
pub fn transfer_error(source: &str, dest: &str) -> (r: Option<&'static str>)
    ensures
        r == if source.len() != IDENTITY_LEN {
            Some(INVALID_SOURCE)
        } else if dest.len() != IDENTITY_LEN {
            Some(INVALID_DESTINATION)
        } else {
            None
        },
{
    if source.len() != IDENTITY_LEN {
        Some(INVALID_SOURCE)
    } else if dest.len() != IDENTITY_LEN {
        Some(INVALID_DESTINATION)
    } else {
        None
    }
}

/// The order and row limit of a listing: `asc == 1` ascending, else
/// descending; a limit of 0 means no limit (-1).
pub fn listing_order(asc: u8, limit: u32) -> (r: (&'static str, i32))
    ensures
        r.0 == (if asc == 1 { "ASC" } else { "DESC" }),
        r.1 == (if limit == 0 { -1i32 } else { limit as i32 }),
{
    let order = if asc == 1 { "ASC" } else { "DESC" };
    let lim: i32 = if limit == 0 { -1 } else { limit as i32 };
    (order, lim)
}

/// How a route reaches the seed it signs with.
#[derive(Debug, Clone, Copy, PartialEq, Eq)]
pub enum SeedAccess {
    /// The seed is stored unencrypted.
    AsStored,
    /// Decrypt it with the unlocked wallet's password.
    DecryptUnlocked,
    /// Check the password against the master password, then decrypt with it.
    VerifyThenDecrypt,
    /// Refuse: an encrypted seed needs a password.
    Refuse(&'static str),
}

/// The unlocked wallet opens an encrypted seed; otherwise a password long
/// enough is checked and used; a shorter one is refused.
pub fn seed_access(encrypted: bool, unlocked: bool, password: &str) -> (a: SeedAccess)
    ensures
        a == if !encrypted {
            SeedAccess::AsStored
        } else if unlocked {
            SeedAccess::DecryptUnlocked
        } else if password.len() >= MINPASSWORDLEN {
            SeedAccess::VerifyThenDecrypt
        } else {
            SeedAccess::Refuse(NEED_PASSWORD)
        },
{
    if !encrypted {
        SeedAccess::AsStored
    } else if unlocked {
        SeedAccess::DecryptUnlocked
    } else if password.len() >= MINPASSWORDLEN {
        SeedAccess::VerifyThenDecrypt
    } else {
        SeedAccess::Refuse(NEED_PASSWORD)
    }
}

} // verus!
