//! Rebuilding a stored session step's transaction parts.
use vstd::prelude::*;
use crate::hex_text::{hex_decode, hex_decoded, hex_encode, hex_encoded};
use crate::row::{get, lookup, num_u32, num_u64, position, text_of};
use crate::session::{opt_u32, opt_u64};
use crate::text::same_text;

verus! {

/// What a step's signed transaction is made of, as stored.
#[derive(Debug)]
pub struct StepParts {
    /// The identity that signed the session.
    pub source: String,
    /// The session's tier: the amount every step transfers.
    pub amount: u64,
    pub tick: u32,
    /// The secret the step reveals (empty for the first commit).
    pub reveal: Vec<u8>,
    /// The secret the stay variant commits to; `None` for the leave variant.
    pub commit_secret: Option<Vec<u8>>,
    pub signature: Vec<u8>,
}

/// The column holding the signature of the chosen variant.
pub open spec fn sig_column(leave: bool) -> Seq<char> {
    if leave {
        "leave_sig"@
    } else {
        "stay_sig"@
    }
}

/// Whether the stored step has everything its transaction needs.
pub open spec fn step_parts_present(
    session: Seq<(String, String)>,
    step: Seq<(String, String)>,
    leave: bool,
) -> bool {
    &&& opt_u64(session, "tier"@) is Some
    &&& opt_u32(step, "tick"@) is Some
    &&& hex_decoded(text_of(step, "reveal_secret"@)) is Some
    &&& (leave || hex_decoded(text_of(step, "commit_secret"@)) is Some)
    &&& hex_decoded(text_of(step, sig_column(leave))) matches Some(s) && s.len() > 0
}

/// The stay or leave transaction parts of a stored step (`None` when a part
/// is missing or malformed, or the variant was never signed).
pub fn step_parts(session: &Vec<(String, String)>, step: &Vec<(String, String)>, leave: bool) -> (p:
    Option<StepParts>)
    ensures
        p is Some <==> step_parts_present(session@, step@, leave),
        p matches Some(x) ==> {
            &&& x.source@ == text_of(session@, "identity"@)
            &&& Some(x.amount) == opt_u64(session@, "tier"@)
            &&& Some(x.tick) == opt_u32(step@, "tick"@)
            &&& Some(x.reveal@) == hex_decoded(text_of(step@, "reveal_secret"@))
            &&& (leave ==> x.commit_secret is None)
            &&& (!leave ==> (x.commit_secret matches Some(c) && Some(c@) == hex_decoded(
                text_of(step@, "commit_secret"@),
            )))
            &&& Some(x.signature@) == hex_decoded(text_of(step@, sig_column(leave)))
        },
{
    let amount = match num_u64(session, "tier") {
        Some(a) => a,
        None => return None,
    };
    let tick = match num_u32(step, "tick") {
        Some(t) => t,
        None => return None,
    };
    let reveal_text = get(step, "reveal_secret");
    let reveal = match hex_decode(reveal_text.as_str()) {
        Some(r) => r,
        None => return None,
    };
    let commit_secret = if leave {
        None
    } else {
        let commit_text = get(step, "commit_secret");
        match hex_decode(commit_text.as_str()) {
            Some(c) => Some(c),
            None => return None,
        }
    };
    let sig_text = if leave {
        get(step, "leave_sig")
    } else {
        get(step, "stay_sig")
    };
    let signature = match hex_decode(sig_text.as_str()) {
        Some(s) => s,
        None => return None,
    };
    if signature.len() == 0 {
        return None;
    }
    Some(StepParts { source: get(session, "identity"), amount, tick, reveal, commit_secret, signature })
}

/// The transfer that records a step's transaction for the broadcaster.
#[derive(Debug)]
pub struct StepTransfer {
    pub source: String,
    pub amount: u64,
    pub tick: u32,
    /// The signature as lowercase hex.
    pub signature: String,
    /// The id of the chosen variant.
    pub txid: String,
}

/// The transfer recording the chosen variant of a step: its parts, with the
/// signature in hex and the variant's transaction id.
pub fn step_transfer(step: &Vec<(String, String)>, parts: &StepParts, leave: bool) -> (t: StepTransfer)
    ensures
        t.source@ == parts.source@,
        t.amount == parts.amount,
        t.tick == parts.tick,
        t.signature@ == hex_encoded(parts.signature@),
        t.txid@ == text_of(step@, if leave { "leave_txid"@ } else { "stay_txid"@ }),
{
    let txid = if leave {
        get(step, "leave_txid")
    } else {
        get(step, "stay_txid")
    };
    StepTransfer {
        source: parts.source.clone(),
        amount: parts.amount,
        tick: parts.tick,
        signature: hex_encode(parts.signature.as_slice()),
        txid,
    }
}

/// Whether `txid` is the leave variant of the stored step (else its stay).
pub fn is_leave_txid(step: &Vec<(String, String)>, txid: &str) -> (b: bool)
    ensures
        b == (text_of(step@, "leave_txid"@) == txid@),
{
    let leave_txid = get(step, "leave_txid");
    same_text(leave_txid.as_str(), txid)
}

/// The status of the first transfer row: "-1" pending, "0" confirmed, "1" failed.
pub fn first_status(rows: &Vec<Vec<(String, String)>>) -> (s: Option<String>)
    ensures
        rows@.len() == 0 ==> s is None,
        rows@.len() > 0 ==> match (s, lookup(rows@[0]@, "status"@)) {
            (Some(a), Some(b)) => a@ == b,
            (None, None) => true,
            _ => false,
        },
{
    if rows.len() == 0 {
        return None;
    }
    let row = &rows[0];
    match position(row, "status") {
        Some(i) => Some(row[i].1.clone()),
        None => None,
    }
}

} // verus!
