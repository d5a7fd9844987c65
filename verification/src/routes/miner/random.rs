//! The RANDOM session routes: what the session list shows, the checks before
//! a session starts or stops, and the rows of a session's step list.
use vstd::prelude::*;
use crate::random::{spec_is_tier, is_tier, ProviderSlot, STREAM_TICKS};
use crate::row::{get, lookup, num_i64, num_u32, position, text_of};
use crate::routes::transaction::IDENTITY_LEN;
use crate::session::{opt_i64, opt_u32, or_i64, FIRST_COMMIT_LEAD_TICKS, STATUS_RUNNING, STATUS_STOP_REQUESTED};
use crate::session_store::{binds_of, set_session_auto_restart, set_session_status, Statement, SQL_SET_AUTO_RESTART, SQL_SET_STATUS};
use crate::text::signed_decimal;
use crate::text::{decimal, decimal_text, same_text};

verus! {

/// Body of `POST /miner/random/start`. A `tier` of 0 means 1 QU; a `tick`
/// of 0 means latest + 30; `steps` of 0 means the default.
#[derive(Debug, Clone)]
pub struct StartRandomSessionRequest {
    pub identity: String,
    pub password: String,
    pub tier: u64,
    pub tick: u32,
    /// Keep mining: replace a failed session with a new one automatically.
    pub auto_restart: bool,
    pub steps: u32,
}

/// Body of `POST /miner/random/stop`.
#[derive(Debug, Clone)]
pub struct StopRandomSessionRequest {
    pub session_id: i64,
}

/// What the session list adds to each stored session.
#[derive(Debug, Clone, PartialEq, Eq)]
pub struct SessionSummary {
    /// Chain length as signed: the reveal steps plus the first commit.
    pub steps: u64,
    pub step_ticks: u32,
    /// Steps the contract recorded, the first commit included.
    pub accepted: i128,
    /// Steps the wallet has put on the wire.
    pub sent: i128,
    /// What became of the stake: locked, pending, returned, lost, none or unknown.
    pub stake: &'static str,
}

/// The session list's view of a stored session (see `SessionSummary`).
pub open spec fn spec_session_summary(row: Seq<(String, String)>, default_steps: u32) -> SessionSummary {
    let total_steps = match opt_u32(row, "total_steps"@) {
        Some(v) => v,
        None => default_steps,
    };
    let first_tick = or_i64(opt_i64(row, "first_tick"@), 0);
    let through = or_i64(opt_i64(row, "broadcast_through"@), -1i64);
    let accepted_tick = or_i64(opt_i64(row, "last_accepted_tick"@), 0);
    let status = or_i64(opt_i64(row, "status"@), 0);
    let enrolled = accepted_tick >= first_tick && accepted_tick > 0;
    let reported = enrolled || (lookup(row, "reason"@) matches Some(r) && r.len() > 0);
    SessionSummary {
        steps: (total_steps + 1) as u64,
        step_ticks: STREAM_TICKS,
        accepted: if enrolled {
            ((accepted_tick - first_tick) / (STREAM_TICKS as int) + 1) as i128
        } else {
            0
        },
        sent: (through + 1) as i128,
        stake: if 0 <= status <= 2 {
            if enrolled {
                "locked"
            } else {
                "pending"
            }
        } else if status == 4 {
            "returned"
        } else if status == 3 && enrolled {
            "lost"
        } else if status == 3 && reported {
            "none"
        } else {
            "unknown"
        },
    }
}

fn i64_or(v: Option<i64>, d: i64) -> (r: i64)
    ensures
        r == or_i64(v, d),
{
    match v {
        Some(x) => x,
        None => d,
    }
}

/// What the session list shows for a stored session (`default_steps`
/// reveal steps when the row does not say).
pub fn session_summary(row: &Vec<(String, String)>, default_steps: u32) -> (s: SessionSummary)
    ensures
        s == spec_session_summary(row@, default_steps),
{
    let total_steps = match num_u32(row, "total_steps") {
        Some(v) => v,
        None => default_steps,
    };
    let first_tick = i64_or(num_i64(row, "first_tick"), 0);
    let through = i64_or(num_i64(row, "broadcast_through"), -1);
    let accepted_tick = i64_or(num_i64(row, "last_accepted_tick"), 0);
    let status = i64_or(num_i64(row, "status"), 0);
    let enrolled = accepted_tick >= first_tick && accepted_tick > 0;
    let has_reason = match position(row, "reason") {
        Some(i) => row[i].1.as_str().unicode_len() > 0,
        None => false,
    };
    let reported = enrolled || has_reason;
    let accepted: i128 = if enrolled {
        ((accepted_tick as i128) - (first_tick as i128)) / 3 + 1
    } else {
        0
    };
    let stake = if 0 <= status && status <= 2 {
        if enrolled {
            "locked"
        } else {
            "pending"
        }
    } else if status == 4 {
        "returned"
    } else if status == 3 && enrolled {
        "lost"
    } else if status == 3 && reported {
        "none"
    } else {
        "unknown"
    };
    SessionSummary {
        steps: total_steps as u64 + 1,
        step_ticks: STREAM_TICKS,
        accepted,
        sent: (through as i128) + 1,
        stake,
    }
}

pub const INVALID_IDENTITY: &'static str = "Invalid Identity!";
pub const INVALID_TIER: &'static str = "Invalid Tier! Use 1, 10, 100 ... 1000000000 QU";

/// A start request's tier and step count, once checked: a tier of 0 means
/// 1 QU, 0 steps means `default_steps`.
pub open spec fn spec_start_check(identity_len: usize, tier: u64, steps: u32, default_steps: u32, max_steps: u32) -> Result<(u64, u32), Seq<char>> {
    let tier = if tier == 0 { 1 } else { tier };
    let steps = if steps == 0 { default_steps } else { steps };
    if identity_len != IDENTITY_LEN {
        Err(INVALID_IDENTITY@)
    } else if !spec_is_tier(tier) {
        Err(INVALID_TIER@)
    } else if steps > max_steps {
        Err("Too many steps: at most "@ + decimal(max_steps as nat) + " per session"@)
    } else {
        Ok((tier, steps))
    }
}

/// Checks a start request's identity, tier and step count.
pub fn start_check(identity: &str, tier: u64, steps: u32, default_steps: u32, max_steps: u32) -> (r: Result<(u64, u32), String>)
    ensures
        match (r, spec_start_check(identity.len(), tier, steps, default_steps, max_steps)) {
            (Ok(a), Ok(b)) => a == b,
            (Err(a), Err(b)) => a@ == b,
            _ => false,
        },
{
    let tier = if tier == 0 { 1 } else { tier };
    let steps = if steps == 0 { default_steps } else { steps };
    if identity.len() != IDENTITY_LEN {
        return Err(String::from_str(INVALID_IDENTITY));
    }
    if !is_tier(tier) {
        return Err(String::from_str(INVALID_TIER));
    }
    if steps > max_steps {
        let mut t = String::from_str("Too many steps: at most ");
        let n = decimal_text(max_steps as u64);
        t.append(n.as_str());
        t.append(" per session");
        return Err(t);
    }
    Ok((tier, steps))
}

/// Whether one of the active sessions belongs to `identity`: the contract
/// keys providers by identity, so one session per identity at a time.
pub fn has_session(active: &Vec<Vec<(String, String)>>, identity: &str) -> (b: bool)
    ensures
        b == exists|i: int| 0 <= i < active@.len() && lookup(#[trigger] active@[i]@, "identity"@) == Some(identity@),
{
    let mut i: usize = 0;
    while i < active.len()
        invariant
            i <= active@.len(),
            forall|j: int| 0 <= j < i ==> lookup(#[trigger] active@[j]@, "identity"@) != Some(identity@),
        decreases active.len() - i,
    {
        match position(&active[i], "identity") {
            Some(p) => {
                if same_text(active[i][p].1.as_str(), identity) {
                    return true;
                }
            },
            None => {},
        }
        i = i + 1;
    }
    false
}

/// The first commit's tick: the one asked for when it is ahead of the
/// latest tick, else `FIRST_COMMIT_LEAD_TICKS` past it.
pub fn first_commit_tick(tick: u32, latest: u32) -> (t: u32)
    requires
        latest + FIRST_COMMIT_LEAD_TICKS <= u32::MAX,
    ensures
        t == if tick > latest { tick } else { (latest + FIRST_COMMIT_LEAD_TICKS) as u32 },
{
    if tick > latest { tick } else { latest + FIRST_COMMIT_LEAD_TICKS }
}

/// A provider report is fresh enough to trust within this many ticks of the latest.
pub const FRESH_TICKS: u32 = 10;

/// Whether a report dated `checked` is fresh at `latest`.
pub fn report_fresh(checked: u32, latest: u32) -> (b: bool)
    ensures
        b == (checked + FRESH_TICKS >= latest),
{
    (checked as u64) + (FRESH_TICKS as u64) >= latest as u64
}

/// The first slot at tier index `tier_index`.
pub fn slot_of(slots: &Vec<ProviderSlot>, tier_index: u32) -> (r: Option<ProviderSlot>)
    ensures
        match r {
            Some(s) => exists|i: int| 0 <= i < slots@.len() && slots@[i] == s && s.tier == tier_index && forall|j: int| 0 <= j < i ==> slots@[j].tier != tier_index,
            None => forall|j: int| 0 <= j < slots@.len() ==> slots@[j].tier != tier_index,
        },
{
    let mut i: usize = 0;
    while i < slots.len()
        invariant
            i <= slots@.len(),
            forall|j: int| 0 <= j < i ==> slots@[j].tier != tier_index,
        decreases slots.len() - i,
    {
        if slots[i].tier == tier_index {
            return Some(slots[i]);
        }
        i = i + 1;
    }
    None
}

/// Why a start is refused while the identity still holds a slot.
pub fn slot_held_text(tier: u64, slot: &ProviderSlot) -> (t: String)
    ensures
        t@ == "This identity already holds a RANDOM slot at the "@ + decimal(tier as nat)
            + " QU stake (stream "@ + decimal(slot.stream as nat) + ", last accepted tick "@ + decimal(
            slot.last_update_tick as nat,
        ) + "). Wait for the contract to drop it, or leave it with a reveal first."@,
{
    let mut t = String::from_str("This identity already holds a RANDOM slot at the ");
    let n = decimal_text(tier);
    t.append(n.as_str());
    t.append(" QU stake (stream ");
    let n = decimal_text(slot.stream as u64);
    t.append(n.as_str());
    t.append(", last accepted tick ");
    let n = decimal_text(slot.last_update_tick as u64);
    t.append(n.as_str());
    t.append("). Wait for the contract to drop it, or leave it with a reveal first.");
    t
}

pub const NOT_RUNNING: &'static str = "This session is not running";

/// A stop is refused unless the session is running (an unreadable status
/// counts as not running).
pub fn stop_error(session: &Vec<(String, String)>) -> (r: Option<&'static str>)
    ensures
        r == if or_i64(opt_i64(session@, "status"@), -1i64) != STATUS_RUNNING {
            Some(NOT_RUNNING)
        } else {
            None::<&'static str>
        },
{
    let status = i64_or(num_i64(session, "status"), -1);
    if status != STATUS_RUNNING {
        Some(NOT_RUNNING)
    } else {
        None
    }
}

/// How many steps the step list shows: 200 unless asked, at most 2000.
pub fn step_list_limit(limit: Option<u32>) -> (n: u32)
    ensures
        n == match limit {
            Some(l) => if l <= 2000 { l } else { 2000 },
            None => 200,
        },
{
    let l = match limit {
        Some(l) => l,
        None => 200,
    };
    if l <= 2000 { l } else { 2000 }
}

/// A row of a session's step list.
#[derive(Debug, Clone)]
pub struct StepRow {
    pub step: i64,
    pub tick: u32,
    /// commit, leave or reveal.
    pub kind: &'static str,
    /// The transaction of the variant that went out.
    pub txid: String,
    /// Whether the contract accepted it: "1" or "0".
    pub accepted: &'static str,
}

/// The step list's row for a stored step: its kind (the first commit, the
/// session's leave, or a reveal), the id of the variant sent, and whether
/// the contract's accepted tick covers it.
pub open spec fn spec_step_row(step: Seq<(String, String)>, leave_step: i64, accepted_tick: u32, first_tick: u32) -> (i64, u32, &'static str, Seq<char>, &'static str) {
    let k = or_i64(opt_i64(step, "step"@), 0);
    let tick = match opt_u32(step, "tick"@) {
        Some(t) => t,
        None => 0,
    };
    let leaving = k == leave_step;
    (
        k,
        tick,
        if k == 0 {
            "commit"
        } else if leaving {
            "leave"
        } else {
            "reveal"
        },
        text_of(step, if leaving { "leave_txid"@ } else { "stay_txid"@ }),
        if accepted_tick >= first_tick && tick <= accepted_tick {
            "1"
        } else {
            "0"
        },
    )
}

pub fn step_row(step: &Vec<(String, String)>, leave_step: i64, accepted_tick: u32, first_tick: u32) -> (r: StepRow)
    ensures
        (r.step, r.tick, r.kind, r.txid@, r.accepted) == spec_step_row(step@, leave_step, accepted_tick, first_tick),
{
    let k = i64_or(num_i64(step, "step"), 0);
    let tick = match num_u32(step, "tick") {
        Some(t) => t,
        None => 0,
    };
    let leaving = k == leave_step;
    let txid = if leaving { get(step, "leave_txid") } else { get(step, "stay_txid") };
    let kind = if k == 0 {
        "commit"
    } else if leaving {
        "leave"
    } else {
        "reveal"
    };
    let accepted = if accepted_tick >= first_tick && tick <= accepted_tick { "1" } else { "0" };
    StepRow { step: k, tick, kind, txid, accepted }
}

/// What the step list reads of its session: steps sent through, the leave
/// step, the accepted tick and the first tick (-1, -1, 0, 0 when unreadable).
pub open spec fn step_list_session(session: Seq<(String, String)>) -> (i64, i64, u32, u32) {
    (
        or_i64(opt_i64(session, "broadcast_through"@), -1i64),
        or_i64(opt_i64(session, "leave_step"@), -1i64),
        match opt_u32(session, "last_accepted_tick"@) {
            Some(t) => t,
            None => 0,
        },
        match opt_u32(session, "first_tick"@) {
            Some(t) => t,
            None => 0,
        },
    )
}

/// The rows of `GET /miner/random/<id>/steps`: the session's sent steps
/// (given in step order) newest first, at most `step_list_limit(limit)` of them.
pub fn step_list(session: &Vec<(String, String)>, steps: &Vec<Vec<(String, String)>>, limit: Option<u32>) -> (out: Vec<StepRow>)
    ensures
        out@.len() == (if steps@.len() < step_list_cap(limit) { steps@.len() as int } else { step_list_cap(limit) as int }),
        forall|j: int| 0 <= j < out@.len() ==> {
            let (_, leave_step, accepted, first) = step_list_session(session@);
            let r = #[trigger] out@[j];
            (r.step, r.tick, r.kind, r.txid@, r.accepted) == spec_step_row(steps@[steps@.len() - 1 - j]@, leave_step, accepted, first)
        },
{
    let leave_step = i64_or(num_i64(session, "leave_step"), -1);
    let accepted = match num_u32(session, "last_accepted_tick") {
        Some(t) => t,
        None => 0,
    };
    let first = match num_u32(session, "first_tick") {
        Some(t) => t,
        None => 0,
    };
    let cap = step_list_limit(limit) as usize;
    let n = steps.len();
    let m: usize = if n < cap { n } else { cap };
    let mut out: Vec<StepRow> = Vec::new();
    let mut j: usize = 0;
    while j < m
        invariant
            m <= n,
            n == steps@.len(),
            j <= m,
            out@.len() == j,
            step_list_session(session@).1 == leave_step,
            step_list_session(session@).2 == accepted,
            step_list_session(session@).3 == first,
            forall|i: int| 0 <= i < j ==> {
                let r = #[trigger] out@[i];
                (r.step, r.tick, r.kind, r.txid@, r.accepted) == spec_step_row(steps@[n - 1 - i]@, leave_step, accepted, first)
            },
        decreases m - j,
    {
        let r = step_row(&steps[n - 1 - j], leave_step, accepted, first);
        out.push(r);
        j = j + 1;
    }
    out
}

/// The last step sent, whose steps the step list fetches (-1: none).
pub fn sent_through(session: &Vec<(String, String)>) -> (t: i64)
    ensures
        t == step_list_session(session@).0,
{
    i64_or(num_i64(session, "broadcast_through"), -1)
}

/// How many steps the step list shows for a requested limit.
pub open spec fn step_list_cap(limit: Option<u32>) -> u32 {
    match limit {
        Some(l) => if l <= 2000 { l } else { 2000 },
        None => 200,
    }
}

pub const UNKNOWN_SESSION: &'static str = "Unknown Session";
pub const STOP_REQUESTED: &'static str = "Stop Requested";

/// What `POST /miner/random/stop` does with the session it read.
#[derive(Debug)]
pub enum StopPlan {
    /// Answer with this text and change nothing.
    Refuse(&'static str),
    /// Run `request_stop`; when it succeeds, run `keep_mining_off` (its
    /// failure is ignored) and forget the session's seed.
    Stop { request_stop: Statement, keep_mining_off: Statement },
}

/// A stop of session `session_id`, given the rows its fetch read: an unknown
/// session or one not running is refused; a running one gets its status set
/// to stop requested, then "keep mining" switched off, so that nothing
/// restarts after it.
pub fn stop_random_session(session_id: i64, rows: &Vec<Vec<(String, String)>>) -> (p: StopPlan)
    ensures
        rows@.len() == 0 ==> p == StopPlan::Refuse(UNKNOWN_SESSION),
        rows@.len() > 0 && or_i64(opt_i64(rows@[0]@, "status"@), -1i64) != STATUS_RUNNING ==> p == StopPlan::Refuse(
            NOT_RUNNING,
        ),
        rows@.len() > 0 && or_i64(opt_i64(rows@[0]@, "status"@), -1i64) == STATUS_RUNNING ==> (p matches StopPlan::Stop {
            request_stop,
            keep_mining_off,
        } && {
            &&& request_stop.sql == SQL_SET_STATUS
            &&& binds_of(request_stop) == seq![
                (":status"@, signed_decimal(STATUS_STOP_REQUESTED as int)),
                (":id"@, signed_decimal(session_id as int)),
            ]
            &&& request_stop.columns@.len() == 0
            &&& keep_mining_off.sql == SQL_SET_AUTO_RESTART
            &&& binds_of(keep_mining_off) == seq![(":on"@, "0"@), (":id"@, signed_decimal(session_id as int))]
            &&& keep_mining_off.columns@.len() == 0
        }),
{
    if rows.len() == 0 {
        return StopPlan::Refuse(UNKNOWN_SESSION);
    }
    match stop_error(&rows[0]) {
        Some(refusal) => StopPlan::Refuse(refusal),
        None => StopPlan::Stop {
            request_stop: set_session_status(session_id, STATUS_STOP_REQUESTED),
            keep_mining_off: set_session_auto_restart(session_id, false),
        },
    }
}

/// The answer once the stop was requested, or the error that stopped it.
pub fn stop_reply(requested: &Result<(), String>) -> (t: String)
    ensures
        t@ == match requested {
            Ok(()) => STOP_REQUESTED@,
            Err(e) => "Failed To Stop Session: "@ + e@,
        },
{
    match requested {
        Ok(()) => String::from_str(STOP_REQUESTED),
        Err(e) => {
            let mut t = String::from_str("Failed To Stop Session: ");
            t.append(e.as_str());
            t
        },
    }
}

} // verus!
