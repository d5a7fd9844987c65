//! The identity routes: checking a seed, growing a random seed, listing and
//! deleting identities.
use vstd::prelude::*;
use vstd::string::StringSliceAdditionalSpecFns;
use crate::routes::MINPASSWORDLEN;

verus! {

/// Body of `POST /identity/from_seed`: seeds are secrets, so they never go in a URL.
#[derive(Debug, Clone)]
pub struct SeedRequest {
    pub seed: String,
}

/// Body of `POST /identity/new` and `POST /identity/delete`; the password may
/// be empty when the wallet is unlocked (or, for new, to store the seed unencrypted).
#[derive(Debug, Clone)]
pub struct PasswordRequest {
    pub password: String,
}

/// Body of `POST /identity/add`.
#[derive(Debug, Clone)]
pub struct AddIdentityRequest {
    pub seed: String,
    pub password: String,
}

/// Body of `POST /identity/delete`.
#[derive(Debug, Clone)]
pub struct DeleteIdentityRequest {
    pub identity: String,
    pub password: String,
}

/// A seed is exactly this many bytes.
pub const SEED_LEN: usize = 55;
pub const SEED_LENGTH_ERROR: &'static str = "Invalid Seed! Must be Exactly 55 characters in length!";
pub const SEED_LETTERS_ERROR: &'static str = "Invalid Seed! Must be a-z lowercase!";

/// A lowercase ASCII letter.
pub open spec fn is_lower_letter(b: u8) -> bool {
    97 <= b <= 122
}

/// What is wrong with a seed: its length in bytes first, then any byte that
/// is not `a`..`z`.
pub open spec fn spec_seed_error(len: usize, bytes: Seq<u8>) -> Option<&'static str> {
    if len != SEED_LEN {
        Some(SEED_LENGTH_ERROR)
    } else if exists|i: int| 0 <= i < bytes.len() && !is_lower_letter(#[trigger] bytes[i]) {
        Some(SEED_LETTERS_ERROR)
    } else {
        None
    }
}

/// Checks a seed given to `POST /identity/add`.
pub fn seed_error(seed: &str) -> (r: Option<&'static str>)
    ensures
        r == spec_seed_error(seed.len(), seed.spec_bytes()),
{
    if seed.len() != SEED_LEN {
        return Some(SEED_LENGTH_ERROR);
    }
    let bytes = seed.as_bytes();
    let mut i: usize = 0;
    while i < bytes.len()
        invariant
            bytes@ == seed.spec_bytes(),
            seed.len() == SEED_LEN,
            i <= bytes@.len(),
            forall|j: int| 0 <= j < i ==> is_lower_letter(bytes@[j]),
        decreases bytes.len() - i,
    {
        if bytes[i] < 97 || bytes[i] > 122 {
            assert(!is_lower_letter(seed.spec_bytes()[i as int]));
            return Some(SEED_LETTERS_ERROR);
        }
        i = i + 1;
    }
    None
}

/// A text of lowercase letters.
pub open spec fn all_lower(s: Seq<char>) -> bool {
    forall|i: int| 0 <= i < s.len() ==> 'a' <= #[trigger] s[i] <= 'z'
}

/// The seed after taking the letters of a batch of random bytes, one by one,
/// until it holds `SEED_LEN` characters.
pub open spec fn with_letters(seed: Seq<char>, random: Seq<u8>) -> Seq<char>
    decreases random.len(),
{
    if random.len() == 0 {
        seed
    } else if is_lower_letter(random[0]) {
        let grown = seed.push(random[0] as char);
        if grown.len() >= SEED_LEN {
            grown
        } else {
            with_letters(grown, random.drop_first())
        }
    } else {
        with_letters(seed, random.drop_first())
    }
}

proof fn lemma_with_letters(seed: Seq<char>, random: Seq<u8>)
    requires
        all_lower(seed),
    ensures
        all_lower(with_letters(seed, random)),
        seed.len() < SEED_LEN ==> with_letters(seed, random).len() <= SEED_LEN,
        with_letters(seed, random).len() >= seed.len(),
    decreases random.len(),
{
    if random.len() > 0 {
        if is_lower_letter(random[0]) {
            let grown = seed.push(random[0] as char);
            assert(all_lower(grown));
            if grown.len() < SEED_LEN {
                lemma_with_letters(grown, random.drop_first());
            }
        } else {
            lemma_with_letters(seed, random.drop_first());
        }
    }
}

/// The one-character text of a lowercase letter byte.
fn letter_text(b: u8) -> (t: &'static str)
    requires
        is_lower_letter(b),
    ensures
        t@ == seq![b as char],
{
    let letters = "abcdefghijklmnopqrstuvwxyz";
    proof {
        reveal_strlit("abcdefghijklmnopqrstuvwxyz");
    }
    let idx = (b - 97) as usize;
    let one = letters.substring_char(idx, idx + 1);
    assert(one@ =~= seq![b as char]) by {
        assert(letters@[idx as int] == b as char);
    }
    one
}

/// Grows a random seed from a batch of random bytes: the bytes that are
/// lowercase letters are appended, until the seed is `SEED_LEN` long. The
/// seed stays lowercase letters, and from a shorter seed never passes that
/// length.
pub fn extend_seed(seed: &mut String, random: &[u8])
    requires
        all_lower(old(seed)@),
        old(seed)@.len() < SEED_LEN,
    ensures
        final(seed)@ == with_letters(old(seed)@, random@),
        all_lower(final(seed)@),
        old(seed)@.len() < SEED_LEN ==> final(seed)@.len() <= SEED_LEN,
{
    proof {
        lemma_with_letters(old(seed)@, random@);
    }
    let mut i: usize = 0;
    assert(random@.subrange(0, random@.len() as int) =~= random@);
    let mut count = seed.unicode_len();
    while i < random.len()
        invariant
            i <= random@.len(),
            count == seed@.len(),
            count < SEED_LEN,
            all_lower(seed@),
            with_letters(old(seed)@, random@) == with_letters(seed@, random@.subrange(i as int, random@.len() as int)),
        decreases random.len() - i,
    {
        let ghost rest = random@.subrange(i as int, random@.len() as int);
        assert(rest.drop_first() =~= random@.subrange(i + 1, random@.len() as int));
        assert(rest[0] == random@[i as int]);
        let b = random[i];
        if b >= 97 && b <= 122 {
            let one = letter_text(b);
            let ghost before = seed@;
            seed.append(one);
            assert(seed@ =~= before.push(b as char));
            count = count + 1;
            if count >= SEED_LEN {
                assert(seed@ == with_letters(old(seed)@, random@));
                return;
            }
        }
        i = i + 1;
    }
    assert(random@.subrange(i as int, random@.len() as int).len() == 0);
}

/// The text of a flag as `/identities` lists it.
pub open spec fn flag_text(b: bool) -> Seq<char> {
    if b {
        "true"@
    } else {
        "false"@
    }
}

/// `[identity, "true"/"false", ...]`: each identity and whether its seed is encrypted.
pub open spec fn listing(ids: Seq<(String, bool)>) -> Seq<Seq<char>>
    decreases ids.len(),
{
    if ids.len() == 0 {
        Seq::empty()
    } else {
        listing(ids.drop_last()).push(ids.last().0@).push(flag_text(ids.last().1))
    }
}

/// The list `/identities` answers with: each stored identity and whether
/// its seed is encrypted.
pub fn identity_listing(ids: &Vec<(String, bool)>) -> (out: Vec<String>)
    ensures
        out@.map_values(|s: String| s@) == listing(ids@),
{
    let mut out: Vec<String> = Vec::new();
    let mut i: usize = 0;
    while i < ids.len()
        invariant
            i <= ids@.len(),
            out@.map_values(|s: String| s@) == listing(ids@.take(i as int)),
        decreases ids.len() - i,
    {
        assert(ids@.take(i + 1).drop_last() =~= ids@.take(i as int));
        let ghost before = out@;
        let name = ids[i].0.clone();
        let flag = if ids[i].1 { String::from_str("true") } else { String::from_str("false") };
        out.push(name);
        out.push(flag);
        assert(out@.map_values(|s: String| s@) =~= before.map_values(|s: String| s@).push(name@).push(flag@));
        i = i + 1;
    }
    assert(ids@.take(ids@.len() as int) =~= ids@);
    out
}

/// How a new or added identity is stored.
#[derive(Debug, Clone, Copy, PartialEq, Eq)]
pub enum StorePlan {
    /// The wallet is unlocked: encrypt with the unlocked password.
    EncryptWithUnlocked,
    /// Check the password against the master password, then encrypt with it.
    VerifyThenEncrypt,
    /// Store the seed as it is.
    StorePlain,
}

/// How to store an identity: with the unlocked wallet's password if it is
/// unlocked, else with the given password when it is long enough, else as is.
pub fn store_plan(unlocked: bool, password: &str) -> (p: StorePlan)
    ensures
        p == if unlocked {
            StorePlan::EncryptWithUnlocked
        } else if password.len() >= MINPASSWORDLEN {
            StorePlan::VerifyThenEncrypt
        } else {
            StorePlan::StorePlain
        },
{
    if unlocked {
        StorePlan::EncryptWithUnlocked
    } else if password.len() >= MINPASSWORDLEN {
        StorePlan::VerifyThenEncrypt
    } else {
        StorePlan::StorePlain
    }
}

pub const DELETE_NEEDS_PASSWORD: &'static str = "Must Supply Password To Delete Encrypted Identity";

/// How `POST /identity/delete` proceeds for a stored identity.
#[derive(Debug, Clone, Copy, PartialEq, Eq)]
pub enum DeletePlan {
    /// Delete it.
    Delete,
    /// Check the password by decrypting the seed, then delete.
    DecryptThenDelete,
    /// Refuse with this message.
    Refuse(&'static str),
}

/// An unlocked wallet deletes at once; an encrypted seed needs a password
/// long enough, and one that decrypts it.
pub fn delete_plan(unlocked: bool, encrypted: bool, password: &str) -> (p: DeletePlan)
    ensures
        p == if unlocked {
            DeletePlan::Delete
        } else if encrypted && password.len() < MINPASSWORDLEN {
            DeletePlan::Refuse(DELETE_NEEDS_PASSWORD)
        } else if encrypted {
            DeletePlan::DecryptThenDelete
        } else {
            DeletePlan::Delete
        },
{
    if unlocked {
        DeletePlan::Delete
    } else if encrypted && password.len() < MINPASSWORDLEN {
        DeletePlan::Refuse(DELETE_NEEDS_PASSWORD)
    } else if encrypted {
        DeletePlan::DecryptThenDelete
    } else {
        DeletePlan::Delete
    }
}

} // verus!
