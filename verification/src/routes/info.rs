//! The health report of the wallet.
use vstd::prelude::*;
use crate::text::{decimal, decimal_text, is_digit};

verus! {

/// The latest tick as JSON: the stored text when it is a non-empty run of
/// ASCII digits, else `null`.
pub open spec fn tick_json(latest_tick: Seq<char>) -> Seq<char> {
    if latest_tick.len() > 0 && forall|i: int| 0 <= i < latest_tick.len() ==> is_digit(#[trigger] latest_tick[i]) {
        latest_tick
    } else {
        "null"@
    }
}

fn digits_only(s: &str) -> (b: bool)
    ensures
        b == (s@.len() > 0 && forall|i: int| 0 <= i < s@.len() ==> is_digit(#[trigger] s@[i])),
{
    let n = s.unicode_len();
    if n == 0 {
        return false;
    }
    let mut i: usize = 0;
    while i < n
        invariant
            n == s@.len(),
            i <= n,
            forall|j: int| 0 <= j < i ==> is_digit(#[trigger] s@[j]),
        decreases n - i,
    {
        let c = s.get_char(i);
        if !('0' <= c && c <= '9') {
            assert(!is_digit(s@[i as int]));
            return false;
        }
        i = i + 1;
    }
    true
}

/// The answer of `/health`: the request queue's depth (all, tick polls, and
/// routine requests beyond the tick polls), the routine limit, the peers in
/// the working set, and the latest known tick.
pub fn health_json(backlog: usize, tick_backlog: usize, routine_limit: usize, peers: usize, latest_tick: &str) -> (t: String)
    ensures
        t@ == "{\"backlog\": "@ + decimal(backlog as nat) + ", \"tick_backlog\": "@ + decimal(
            tick_backlog as nat,
        ) + ", \"routine_backlog\": "@ + decimal(
            (if backlog >= tick_backlog { backlog - tick_backlog } else { 0 }) as nat,
        ) + ", \"routine_limit\": "@ + decimal(routine_limit as nat) + ", \"peers\": "@ + decimal(
            peers as nat,
        ) + ", \"latest_tick\": "@ + tick_json(latest_tick@) + "}"@,
{
    let routine = if backlog >= tick_backlog { backlog - tick_backlog } else { 0 };
    let mut t = String::from_str("{\"backlog\": ");
    let s = decimal_text(backlog as u64);
    t.append(s.as_str());
    t.append(", \"tick_backlog\": ");
    let s = decimal_text(tick_backlog as u64);
    t.append(s.as_str());
    t.append(", \"routine_backlog\": ");
    let s = decimal_text(routine as u64);
    t.append(s.as_str());
    t.append(", \"routine_limit\": ");
    let s = decimal_text(routine_limit as u64);
    t.append(s.as_str());
    t.append(", \"peers\": ");
    let s = decimal_text(peers as u64);
    t.append(s.as_str());
    t.append(", \"latest_tick\": ");
    if digits_only(latest_tick) {
        t.append(latest_tick);
    } else {
        t.append("null");
    }
    t.append("}");
    t
}

} // verus!
