//! The wallet routes: unlocking, setting the master password, and the
//! exported wallet file.
use vstd::prelude::*;
use crate::routes::MINPASSWORDLEN;

verus! {

/// JSON body carrying just the master password (never in the URL).
#[derive(Debug, Clone)]
pub struct PasswordRequest {
    pub password: String,
}

/// Body of `POST /wallet/unlock`.
#[derive(Debug, Clone)]
pub struct UnlockRequest {
    pub password: String,
    pub timeout_ms: u64,
}

pub const PASSWORD_TOO_SHORT: &'static str = "Password Too Short!";
pub const PASSWORD_TOO_LONG: &'static str = "Password Too Long!";
pub const TIMEOUT_TOO_LONG: &'static str = "Wallet Unlock Timeout Period Too Long!";
/// Passwords longer than this (in bytes) cannot unlock the wallet.
pub const MAXPASSWORDLEN: usize = 64;
/// The longest unlock period, in milliseconds.
pub const MAX_UNLOCK_MS: u64 = 99999;

/// What is wrong with an unlock request: a password too short or too long,
/// or a period too long.
pub fn unlock_error(password: &str, timeout_ms: u64) -> (r: Option<&'static str>)
    ensures
        r == if password.len() < MINPASSWORDLEN {
            Some(PASSWORD_TOO_SHORT)
        } else if password.len() > MAXPASSWORDLEN {
            Some(PASSWORD_TOO_LONG)
        } else if timeout_ms > MAX_UNLOCK_MS {
            Some(TIMEOUT_TOO_LONG)
        } else {
            None
        },
{
    if password.len() < MINPASSWORDLEN {
        Some(PASSWORD_TOO_SHORT)
    } else if password.len() > MAXPASSWORDLEN {
        Some(PASSWORD_TOO_LONG)
    } else if timeout_ms > MAX_UNLOCK_MS {
        Some(TIMEOUT_TOO_LONG)
    } else {
        None
    }
}

/// Setting or resetting the master password refuses a short one.
pub fn new_password_error(password: &str) -> (r: Option<&'static str>)
    ensures
        r == if password.len() < MINPASSWORDLEN {
            Some(PASSWORD_TOO_SHORT)
        } else {
            None
        },
{
    if password.len() < MINPASSWORDLEN {
        Some(PASSWORD_TOO_SHORT)
    } else {
        None
    }
}

/// An identity as the exported wallet file sees it.
#[derive(Debug, Clone)]
pub struct WalletEntry {
    pub identity: String,
    pub seed: String,
    pub salt: String,
    pub hash: String,
    pub encrypted: bool,
    /// For an encrypted identity, its (seed, salt, hash) once decrypted with
    /// the given password, `None` when that failed or was not tried.
    pub decrypted: Option<(String, String, String)>,
}

/// One line of the exported file. With a short password seeds are dumped as
/// stored, without salt or hash; otherwise an encrypted seed is written
/// decrypted, or left empty when it did not decrypt.
pub open spec fn csv_line(e: WalletEntry, short: bool) -> Seq<char> {
    if short {
        e.identity@ + ","@ + e.seed@ + ","@ + ","@ + "\n"@
    } else if e.encrypted {
        match e.decrypted {
            Some((s, salt, hash)) => e.identity@ + ","@ + s@ + ","@ + salt@ + ","@ + hash@ + "\n"@,
            None => e.identity@ + ","@ + ",,\n"@,
        }
    } else {
        e.identity@ + ","@ + e.seed@ + ","@ + e.salt@ + ","@ + e.hash@ + "\n"@
    }
}

/// Whether a line carries a usable seed.
pub open spec fn line_valid(e: WalletEntry, short: bool) -> bool {
    short || !e.encrypted || e.decrypted is Some
}

/// All lines, in order.
pub open spec fn csv_text(entries: Seq<WalletEntry>, short: bool) -> Seq<char>
    decreases entries.len(),
{
    if entries.len() == 0 {
        Seq::empty()
    } else {
        csv_text(entries.drop_last(), short) + csv_line(entries.last(), short)
    }
}

/// What `POST /wallet/download` answers: the file when at least one line
/// carries a usable seed, else "Invalid Password!".
pub open spec fn spec_wallet_file(entries: Seq<WalletEntry>, password_len: usize) -> Seq<char> {
    let short = password_len < MINPASSWORDLEN;
    if exists|i: int| 0 <= i < entries.len() && line_valid(#[trigger] entries[i], short) {
        csv_text(entries, short)
    } else {
        "Invalid Password!"@
    }
}

fn line(e: &WalletEntry, short: bool) -> (t: String)
    ensures
        t@ == csv_line(*e, short),
{
    let mut t = e.identity.clone();
    t.append(",");
    if short {
        t.append(e.seed.as_str());
        t.append(",");
        t.append(",");
        t.append("\n");
    } else if e.encrypted {
        match &e.decrypted {
            Some((s, salt, hash)) => {
                t.append(s.as_str());
                t.append(",");
                t.append(salt.as_str());
                t.append(",");
                t.append(hash.as_str());
                t.append("\n");
            },
            None => {
                t.append(",,\n");
            },
        }
    } else {
        t.append(e.seed.as_str());
        t.append(",");
        t.append(e.salt.as_str());
        t.append(",");
        t.append(e.hash.as_str());
        t.append("\n");
    }
    t
}

/// The exported wallet (see `spec_wallet_file`), given each identity with
/// its decryption under the request's password (of `password_len` bytes).
pub fn wallet_file(entries: &Vec<WalletEntry>, password_len: usize) -> (t: String)
    ensures
        t@ == spec_wallet_file(entries@, password_len),
{
    let short = password_len < MINPASSWORDLEN;
    let mut out = String::new();
    let mut valid = false;
    let mut i: usize = 0;
    while i < entries.len()
        invariant
            i <= entries@.len(),
            short == (password_len < MINPASSWORDLEN),
            out@ == csv_text(entries@.take(i as int), short),
            valid == exists|j: int| 0 <= j < i && line_valid(#[trigger] entries@[j], short),
        decreases entries.len() - i,
    {
        assert(entries@.take(i + 1).drop_last() =~= entries@.take(i as int));
        let l = line(&entries[i], short);
        out.append(l.as_str());
        let ok = short || !entries[i].encrypted || entries[i].decrypted.is_some();
        valid = valid || ok;
        i = i + 1;
    }
    assert(entries@.take(entries@.len() as int) =~= entries@);
    if valid {
        out
    } else {
        String::from_str("Invalid Password!")
    }
}

} // verus!
