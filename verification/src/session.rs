//! The decisions of the RANDOM session driver.
//!
//! Every step of a session was signed when it started: step 0 is the first
//! commit, steps 1.. each carry a stay and a leave variant, the last step only
//! leaves. Each pass, the driver settles a session against the peers'
//! reports (see `judge`), then puts the steps whose ticks are coming up on the
//! wire, choosing the leave variant once a stop was requested. The driver's
//! loop performs what these functions decide.
use vstd::prelude::*;
use crate::judge::{step_tick, Verdict};
use crate::random::STREAM_TICKS;
use crate::row::{get, lookup, num_i64, num_u32, num_u64, text_of};
use crate::text::{decimal, decimal_text, parsed_i64, parsed_u32, parsed_u64, same_text, signed_decimal, signed_decimal_text};

verus! {

/// Providing: steps are broadcast as their ticks come near.
pub const STATUS_RUNNING: i64 = 0;
/// Stop requested: the next unsent step is broadcast as a leave.
pub const STATUS_STOP_REQUESTED: i64 = 1;
/// The leave step is on the wire.
pub const STATUS_LEAVING: i64 = 2;
/// A step was not included in its tick (or was missed while the wallet was down).
pub const STATUS_FAILED: i64 = 3;
/// The leave step was included: collateral returned.
pub const STATUS_STOPPED: i64 = 4;

/// Ticks ahead of the latest known tick a session's first commit is scheduled.
pub const FIRST_COMMIT_LEAD_TICKS: u32 = 30;
/// Ticks after a leave's tick to wait for peers to report on it.
pub const LEAVE_VERIFY_TICKS: u32 = 30;
/// Peers that must agree before a session is ended on the contract's report.
pub const CORROBORATING_PEERS: usize = 2;
/// A step is broadcast once its tick is at most this far ahead of the latest tick.
pub const BROADCAST_LEAD_TICKS: u32 = 24;
/// A step this close to its tick can no longer make it.
pub const TOO_LATE_TICKS: u32 = 2;
/// A "keep mining" chain stops after this many failures in a row without an accepted step.
pub const MAX_FAIL_STREAK: u32 = 3;
/// The reveal steps a session signs when nothing else is asked for, and the
/// count read for a session whose row holds none.
pub const DEFAULT_STEPS: u32 = 1000;

/// What the driver reads of a stored session.
#[derive(Debug)]
pub struct SessionInfo {
    pub id: i64,
    pub identity: String,
    pub tier: u64,
    pub status: i64,
    pub first_tick: u32,
    /// The last step put on the wire, -1 for none.
    pub through: i64,
    /// The step that leaves, -1 while none was sent.
    pub leave_step: i64,
    pub last_accepted: u32,
    /// Chain length: the signed reveal steps plus the first commit.
    pub total: u64,
}

/// A session row as the driver reads it: `None` without a readable id.
pub open spec fn spec_session_info(row: Seq<(String, String)>, default_steps: u32) -> Option<
    SessionInfo,
> {
    match lookup(row, "id"@) {
        None => None,
        Some(t) => match parsed_i64(t) {
            None => None,
            Some(id) => Some(
                SessionInfo {
                    id,
                    identity: arbitrary(),
                    tier: or_u64(opt_u64(row, "tier"@), 0),
                    status: or_i64(opt_i64(row, "status"@), STATUS_RUNNING),
                    first_tick: or_u32(opt_u32(row, "first_tick"@), 0),
                    through: or_i64(opt_i64(row, "broadcast_through"@), -1i64),
                    leave_step: or_i64(opt_i64(row, "leave_step"@), -1i64),
                    last_accepted: or_u32(opt_u32(row, "last_accepted_tick"@), 0),
                    total: (or_u32(opt_u32(row, "total_steps"@), default_steps) + 1) as u64,
                },
            ),
        },
    }
}

pub open spec fn opt_u32(row: Seq<(String, String)>, key: Seq<char>) -> Option<u32> {
    match lookup(row, key) {
        Some(t) => parsed_u32(t),
        None => None,
    }
}

pub open spec fn opt_u64(row: Seq<(String, String)>, key: Seq<char>) -> Option<u64> {
    match lookup(row, key) {
        Some(t) => parsed_u64(t),
        None => None,
    }
}

pub open spec fn opt_i64(row: Seq<(String, String)>, key: Seq<char>) -> Option<i64> {
    match lookup(row, key) {
        Some(t) => parsed_i64(t),
        None => None,
    }
}

pub open spec fn or_u32(v: Option<u32>, d: u32) -> u32 {
    match v {
        Some(x) => x,
        None => d,
    }
}

pub open spec fn or_u64(v: Option<u64>, d: u64) -> u64 {
    match v {
        Some(x) => x,
        None => d,
    }
}

pub open spec fn or_i64(v: Option<i64>, d: i64) -> i64 {
    match v {
        Some(x) => x,
        None => d,
    }
}

/// The same session fields, ignoring the identity text.
pub open spec fn same_fields(a: SessionInfo, b: SessionInfo) -> bool {
    &&& a.id == b.id
    &&& a.tier == b.tier
    &&& a.status == b.status
    &&& a.first_tick == b.first_tick
    &&& a.through == b.through
    &&& a.leave_step == b.leave_step
    &&& a.last_accepted == b.last_accepted
    &&& a.total == b.total
}

/// Reads a session row with the driver's defaults (`default_steps` reveal
/// steps when the row does not say); `None` when the id is unreadable.
pub fn session_info(row: &Vec<(String, String)>, default_steps: u32) -> (info: Option<SessionInfo>)
    ensures
        match (info, spec_session_info(row@, default_steps)) {
            (Some(i), Some(s)) => same_fields(i, s) && i.identity@ == text_of(row@, "identity"@),
            (None, None) => true,
            _ => false,
        },
{
    let id = match num_i64(row, "id") {
        Some(id) => id,
        None => return None,
    };
    let tier = match num_u64(row, "tier") {
        Some(v) => v,
        None => 0,
    };
    let status = match num_i64(row, "status") {
        Some(v) => v,
        None => STATUS_RUNNING,
    };
    let first_tick = match num_u32(row, "first_tick") {
        Some(v) => v,
        None => 0,
    };
    let through = match num_i64(row, "broadcast_through") {
        Some(v) => v,
        None => -1,
    };
    let leave_step = match num_i64(row, "leave_step") {
        Some(v) => v,
        None => -1,
    };
    let last_accepted = match num_u32(row, "last_accepted_tick") {
        Some(v) => v,
        None => 0,
    };
    let steps = match num_u32(row, "total_steps") {
        Some(v) => v,
        None => default_steps,
    };
    Some(
        SessionInfo {
            id,
            identity: get(row, "identity"),
            tier,
            status,
            first_tick,
            through,
            leave_step,
            last_accepted,
            total: steps as u64 + 1,
        },
    )
}

/// How many peers must agree: two, or every peer of a smaller set (at least one).
pub open spec fn spec_needed_peers(num_peers: usize) -> usize {
    let n = if num_peers >= 1 {
        num_peers
    } else {
        1
    };
    if CORROBORATING_PEERS <= n {
        CORROBORATING_PEERS
    } else {
        n
    }
}

pub fn needed_peers(num_peers: usize) -> (n: usize)
    ensures
        n == spec_needed_peers(num_peers),
{
    let at_least_one = if num_peers >= 1 { num_peers } else { 1 };
    if CORROBORATING_PEERS <= at_least_one {
        CORROBORATING_PEERS
    } else {
        at_least_one
    }
}

/// Every tick this pass computes for the session fits a `u32`, as the
/// driver's tick arithmetic needs.
pub open spec fn pass_fits(info: SessionInfo, reported_accepted: u32, latest: u32) -> bool {
    &&& info.first_tick + STREAM_TICKS * info.total + LEAVE_VERIFY_TICKS <= u32::MAX
    &&& -1 <= info.through < info.total
    &&& (info.leave_step == -1 || 1 <= info.leave_step < info.total)
    &&& latest + FIRST_COMMIT_LEAD_TICKS <= u32::MAX
    &&& info.last_accepted + STREAM_TICKS <= u32::MAX
    &&& reported_accepted + STREAM_TICKS <= u32::MAX
}

/// Whether `pass_fits` holds, so that the pass can be decided.
pub fn check_pass_fits(info: &SessionInfo, reported_accepted: u32, latest: u32) -> (b: bool)
    ensures
        b == pass_fits(*info, reported_accepted, latest),
{
    let span = (info.first_tick as u128) + 3 * (info.total as u128) + 30;
    span <= u32::MAX as u128 && -1 <= info.through && (info.through as i128) < (info.total as i128)
        && (info.leave_step == -1 || (1 <= info.leave_step && (info.leave_step as i128) < (
    info.total as i128))) && (latest as u64) + 30 <= u32::MAX as u64 && (info.last_accepted as u64)
        + 3 <= u32::MAX as u64 && (reported_accepted as u64) + 3 <= u32::MAX as u64
}

/// Why a session ended.
#[derive(Debug, PartialEq, Eq)]
pub enum FailReason {
    /// The first commit was never accepted.
    FirstCommitNotAccepted { first_tick: u32 },
    /// The slot vanished: the step after the last accepted one was missed.
    Evicted { missed_tick: u32, peers: usize, tier: u64 },
    /// The slot is there but a step well behind was not accepted.
    StepNotAccepted { due_tick: u32, last_accepted: u32, peers: usize },
    /// The leave was seen missing from its tick.
    LeaveNotIncluded { leave_tick: u32, tier: u64 },
    /// No peer reported on the leave in time.
    LeaveUnverified { leave_tick: u32 },
    /// A step's tick came before it could be sent.
    SentTooLate { step: u64, tick: u32, latest: u32 },
}

/// What the reports settle for a session this pass.
#[derive(Debug, PartialEq, Eq)]
pub enum Settlement {
    /// Nothing ends the session: go on broadcasting.
    Continue,
    /// The slot is gone after the leave: the leave's own fate decides.
    CheckLeave { leave_tick: u32, absent_newest: u32 },
    /// The session ends at `tick`.
    Fail { tick: u32, reason: FailReason },
}

/// The accepted tick after taking in a verdict.
pub open spec fn accepted_after(info: SessionInfo, verdict: Verdict) -> u32 {
    if verdict.last_accepted > info.last_accepted {
        verdict.last_accepted
    } else {
        info.last_accepted
    }
}

/// What a verdict settles, as the driver decides it.
pub open spec fn spec_settle(info: SessionInfo, verdict: Verdict) -> Settlement {
    let accepted = accepted_after(info, verdict);
    match verdict.gone {
        Some(g) => if info.leave_step >= 0 && g.judged >= info.leave_step {
            Settlement::CheckLeave {
                leave_tick: step_tick(info.first_tick, info.leave_step as int) as u32,
                absent_newest: g.newest,
            }
        } else if accepted < info.first_tick {
            Settlement::Fail {
                tick: info.first_tick,
                reason: FailReason::FirstCommitNotAccepted { first_tick: info.first_tick },
            }
        } else {
            Settlement::Fail {
                tick: (accepted + STREAM_TICKS) as u32,
                reason: FailReason::Evicted {
                    missed_tick: (accepted + STREAM_TICKS) as u32,
                    peers: g.peers,
                    tier: info.tier,
                },
            }
        },
        None => match verdict.not_accepted {
            Some((due, peers)) => Settlement::Fail {
                tick: due,
                reason: FailReason::StepNotAccepted { due_tick: due, last_accepted: accepted, peers },
            },
            None => Settlement::Continue,
        },
    }
}

/// How a verdict ends a session, for every session and verdict. Let the
/// accepted tick be the later of the session's and the verdict's. When the
/// peers report the slot gone and the leave, if any, is not yet judged: with
/// the accepted tick at or past the first tick (the first commit was taken),
/// the provider was evicted at the stream tick after it; only with the
/// accepted tick before the first tick was the first commit not accepted.
/// When the slot is gone after the leave, the leave's fate decides. With the
/// slot there, a step reported not accepted fails the session at its tick,
/// and nothing else ends it.
pub proof fn a_vanished_slot_after_the_first_commit_is_an_eviction(info: SessionInfo, verdict: Verdict)
    ensures
        ({
            let accepted: u32 = if verdict.last_accepted >= info.last_accepted {
                verdict.last_accepted
            } else {
                info.last_accepted
            };
            let s = spec_settle(info, verdict);
            let g = verdict.gone.unwrap();
            let leave_judged = info.leave_step >= 0 && g.judged >= info.leave_step;
            &&& (verdict.gone is Some && !leave_judged && accepted >= info.first_tick) ==> s == (Settlement::Fail {
                tick: (accepted + STREAM_TICKS) as u32,
                reason: FailReason::Evicted {
                    missed_tick: (accepted + STREAM_TICKS) as u32,
                    peers: g.peers,
                    tier: info.tier,
                },
            })
            &&& (verdict.gone is Some && !leave_judged && accepted < info.first_tick) ==> s == (Settlement::Fail {
                tick: info.first_tick,
                reason: FailReason::FirstCommitNotAccepted { first_tick: info.first_tick },
            })
            &&& (s matches Settlement::Fail { reason: FailReason::FirstCommitNotAccepted { .. }, .. }) ==> accepted
                < info.first_tick
            &&& (verdict.gone is Some && leave_judged) ==> s == (Settlement::CheckLeave {
                leave_tick: (info.first_tick + STREAM_TICKS * info.leave_step) as u32,
                absent_newest: g.newest,
            })
            &&& (verdict.gone is None && verdict.not_accepted is Some) ==> s
                == (Settlement::Fail {
                tick: verdict.not_accepted.unwrap().0,
                reason: FailReason::StepNotAccepted {
                    due_tick: verdict.not_accepted.unwrap().0,
                    last_accepted: accepted,
                    peers: verdict.not_accepted.unwrap().1,
                },
            })
            &&& (verdict.gone is None && verdict.not_accepted is None) ==> s == Settlement::Continue
        }),
{
}

/// Settles a session against what the peers report: the new accepted tick,
/// when the reports moved it forward, and whether the session goes on.
pub fn settle(info: &SessionInfo, verdict: &Verdict) -> (r: (Option<u32>, Settlement))
    requires
        pass_fits(*info, verdict.last_accepted, 0),
    ensures
        r.0 == (if verdict.last_accepted > info.last_accepted {
            Some(verdict.last_accepted)
        } else {
            None::<u32>
        }),
        r.1 == spec_settle(*info, *verdict),
{
    let record = if verdict.last_accepted > info.last_accepted {
        Some(verdict.last_accepted)
    } else {
        None
    };
    let accepted = if verdict.last_accepted > info.last_accepted {
        verdict.last_accepted
    } else {
        info.last_accepted
    };
    let settlement = match &verdict.gone {
        Some(g) => {
            if info.leave_step >= 0 && g.judged >= info.leave_step {
                Settlement::CheckLeave {
                    leave_tick: info.first_tick + 3 * (info.leave_step as u32),
                    absent_newest: g.newest,
                }
            } else if accepted < info.first_tick {
                Settlement::Fail {
                    tick: info.first_tick,
                    reason: FailReason::FirstCommitNotAccepted { first_tick: info.first_tick },
                }
            } else {
                let missed = accepted + 3;
                Settlement::Fail {
                    tick: missed,
                    reason: FailReason::Evicted { missed_tick: missed, peers: g.peers, tier: info.tier },
                }
            }
        },
        None => match verdict.not_accepted {
            Some((due, peers)) => Settlement::Fail {
                tick: due,
                reason: FailReason::StepNotAccepted { due_tick: due, last_accepted: accepted, peers },
            },
            None => Settlement::Continue,
        },
    };
    (record, settlement)
}

/// What becomes of a session whose slot is gone after its leave.
#[derive(Debug, PartialEq, Eq)]
pub enum LeaveOutcome {
    /// A clean leave: the collateral came back.
    Left { leave_tick: u32 },
    /// Wait for peers to report on the leave (asking for a balance report when `ask` is set).
    Wait { ask: bool },
    /// The leave failed or could not be verified in time.
    Failed { tick: u32, reason: FailReason },
}

/// A transfer's stored status reads as the given text.
pub open spec fn status_is(status: Option<String>, text: Seq<char>) -> bool {
    match status {
        Some(s) => s@ == text,
        None => false,
    }
}

/// How a leave is judged: included in its tick, or every step before it was
/// accepted, is a clean leave; otherwise wait while peers may still report,
/// and fail once they reported it missing or the wait ran out.
pub open spec fn spec_judge_leave(
    info: SessionInfo,
    accepted: u32,
    leave_tick: u32,
    absent_newest: u32,
    leave_status: Option<String>,
    check_due: bool,
) -> LeaveOutcome {
    let before = step_tick(info.first_tick, info.leave_step - 1);
    let floor = if before >= info.first_tick {
        before
    } else {
        info.first_tick as int
    };
    if status_is(leave_status, "0"@) || accepted >= floor {
        LeaveOutcome::Left { leave_tick }
    } else if !status_is(leave_status, "1"@) && absent_newest < leave_tick + LEAVE_VERIFY_TICKS {
        LeaveOutcome::Wait { ask: check_due }
    } else if status_is(leave_status, "1"@) {
        LeaveOutcome::Failed {
            tick: leave_tick,
            reason: FailReason::LeaveNotIncluded { leave_tick, tier: info.tier },
        }
    } else {
        LeaveOutcome::Failed { tick: leave_tick, reason: FailReason::LeaveUnverified { leave_tick } }
    }
}

/// Judges a leave from its transfer's status (`"0"` included, `"1"` not),
/// the accepted tick, and how far the peers' reports have come.
pub fn judge_leave(
    info: &SessionInfo,
    accepted: u32,
    leave_tick: u32,
    absent_newest: u32,
    leave_status: &Option<String>,
    check_due: bool,
) -> (o: LeaveOutcome)
    requires
        pass_fits(*info, 0, 0),
        info.leave_step >= 1,
        leave_tick == step_tick(info.first_tick, info.leave_step as int),
    ensures
        o == spec_judge_leave(*info, accepted, leave_tick, absent_newest, *leave_status, check_due),
{
    let included = match leave_status {
        Some(s) => same_text(s.as_str(), "0"),
        None => false,
    };
    let not_included = match leave_status {
        Some(s) => same_text(s.as_str(), "1"),
        None => false,
    };
    let before = info.first_tick + 3 * ((info.leave_step - 1) as u32);
    let floor = if before >= info.first_tick { before } else { info.first_tick };
    if included || accepted >= floor {
        LeaveOutcome::Left { leave_tick }
    } else if !not_included && absent_newest < leave_tick + LEAVE_VERIFY_TICKS {
        LeaveOutcome::Wait { ask: check_due }
    } else if not_included {
        LeaveOutcome::Failed {
            tick: leave_tick,
            reason: FailReason::LeaveNotIncluded { leave_tick, tier: info.tier },
        }
    } else {
        LeaveOutcome::Failed { tick: leave_tick, reason: FailReason::LeaveUnverified { leave_tick } }
    }
}

/// The steps to put on the wire from step `next` on, in order, each with
/// whether it goes out as the leave, and the failure that stops the window
/// if one does.
pub open spec fn plan_from(info: SessionInfo, next: int, latest: u32) -> (Seq<(u64, bool)>, Option<
    (u32, FailReason),
>)
    decreases info.total - next,
{
    if next < 0 || next >= info.total {
        (Seq::empty(), None)
    } else {
        let t = step_tick(info.first_tick, next);
        if t > latest + BROADCAST_LEAD_TICKS {
            (Seq::empty(), None)
        } else if next > 0 && t <= latest + TOO_LATE_TICKS {
            (
                Seq::empty(),
                Some(
                    (
                        t as u32,
                        FailReason::SentTooLate { step: next as u64, tick: t as u32, latest },
                    ),
                ),
            )
        } else {
            let leave = next > 0 && (info.status == STATUS_STOP_REQUESTED || next + 1 == info.total);
            if leave {
                (seq![(next as u64, true)], None)
            } else {
                let rest = plan_from(info, next + 1, latest);
                (seq![(next as u64, false)] + rest.0, rest.1)
            }
        }
    }
}

/// The broadcast window of a pass: nothing once a leave is out or while the
/// tick has not moved since the driver started; else the plan from the step
/// after the last one sent.
pub open spec fn spec_broadcast_plan(info: SessionInfo, latest: u32, tick_moved: bool) -> (Seq<
    (u64, bool),
>, Option<(u32, FailReason)>) {
    if info.leave_step >= 0 || !tick_moved {
        (Seq::empty(), None)
    } else {
        plan_from(info, info.through + 1, latest)
    }
}

/// Plans which steps go out this pass (see `spec_broadcast_plan`). The
/// driver sends them in order, stops at the first that cannot be fetched or
/// recorded, and ends the session with the failure only when every planned
/// step went out.
pub fn broadcast_plan(info: &SessionInfo, latest: u32, tick_moved: bool) -> (r: (
    Vec<(u64, bool)>,
    Option<(u32, FailReason)>,
))
    requires
        pass_fits(*info, 0, latest),
    ensures
        (r.0@, r.1) == spec_broadcast_plan(*info, latest, tick_moved),
{
    let mut steps: Vec<(u64, bool)> = Vec::new();
    if info.leave_step >= 0 || !tick_moved {
        return (steps, None);
    }
    let start: u64 = (info.through + 1) as u64;
    let mut next: u64 = start;
    let ghost whole = plan_from(*info, start as int, latest);
    while next < info.total
        invariant
            pass_fits(*info, 0, latest),
            start <= next <= info.total,
            info.leave_step < 0,
            whole == plan_from(*info, start as int, latest),
            whole == spec_broadcast_plan(*info, latest, tick_moved),
            whole.0 == steps@ + plan_from(*info, next as int, latest).0,
            whole.1 == plan_from(*info, next as int, latest).1,
            forall|j: int| 0 <= j < steps@.len() ==> !(#[trigger] steps@[j]).1,
        decreases info.total - next,
    {
        let this_tick: u32 = info.first_tick + 3 * (next as u32);
        assert(this_tick == step_tick(info.first_tick, next as int));
        if this_tick > latest + BROADCAST_LEAD_TICKS {
            assert(plan_from(*info, next as int, latest).1 is None);
            assert(plan_from(*info, next as int, latest).0 =~= Seq::<(u64, bool)>::empty());
            assert(whole.0 =~= steps@);
            return (steps, None);
        }
        if next > 0 && this_tick <= latest + TOO_LATE_TICKS {
            assert(whole.0 =~= steps@);
            return (
                steps,
                Some(
                    (
                        this_tick,
                        FailReason::SentTooLate { step: next, tick: this_tick, latest },
                    ),
                ),
            );
        }
        let leave = next > 0 && (info.status == STATUS_STOP_REQUESTED || next + 1 == info.total);
        let ghost before = steps@;
        steps.push((next, leave));
        if leave {
            assert(whole.0 =~= steps@);
            return (steps, None);
        }
        assert(plan_from(*info, next as int, latest).0 =~= seq![(next, false)] + plan_from(
            *info,
            next + 1,
            latest,
        ).0);
        assert(whole.0 =~= steps@ + plan_from(*info, next + 1, latest).0);
        next = next + 1;
    }
    assert(whole.0 =~= steps@);
    (steps, None)
}

} // verus!

verus! {

/// The text of `n` followed by `tail`.
fn then_text(mut s: String, n: u64, tail: &str) -> (r: String)
    ensures
        r@ == s@ + decimal(n as nat) + tail@,
{
    let digits = decimal_text(n);
    s.append(digits.as_str());
    s.append(tail);
    s
}

/// The reason shown to the user for a failed session.
pub open spec fn spec_reason_text(reason: FailReason) -> Seq<char> {
    match reason {
        FailReason::FirstCommitNotAccepted { first_tick } => "the first commit at tick "@ + decimal(
            first_tick as nat,
        ) + " was not accepted by the contract (wrong amount, stream full, or not included)"@,
        FailReason::Evicted { missed_tick, peers, tier } => "evicted by the contract: the step at tick "@
            + decimal(missed_tick as nat) + " was not accepted (reported by "@ + decimal(peers as nat)
            + " peers), the stake of "@ + decimal(tier as nat) + " QU was forfeited"@,
        FailReason::StepNotAccepted { due_tick, last_accepted, peers } => "the step at tick "@
            + decimal(due_tick as nat) + " was not accepted by the contract (last accepted tick "@
            + decimal(last_accepted as nat) + ", reported by "@ + decimal(peers as nat) + " peers)"@,
        FailReason::LeaveNotIncluded { leave_tick, tier } => "the reveal-and-leave at tick "@ + decimal(
            leave_tick as nat,
        ) + " was not included in its tick; the provider was evicted and the stake of "@ + decimal(
            tier as nat,
        ) + " QU forfeited"@,
        FailReason::LeaveUnverified { leave_tick } => "the reveal-and-leave at tick "@ + decimal(
            leave_tick as nat,
        ) + " could not be verified: peers did not report on it within "@ + decimal(
            LEAVE_VERIFY_TICKS as nat,
        ) + " ticks"@,
        FailReason::SentTooLate { step, tick, latest } => "step "@ + decimal(step as nat) + " (tick "@
            + decimal(tick as nat) + ") could not be sent in time; the latest tick was already "@
            + decimal(latest as nat),
    }
}

/// The reason shown to the user for a failed session.
pub fn reason_text(reason: &FailReason) -> (t: String)
    ensures
        t@ == spec_reason_text(*reason),
{
    match reason {
        FailReason::FirstCommitNotAccepted { first_tick } => {
            then_text(
                String::from_str("the first commit at tick "),
                *first_tick as u64,
                " was not accepted by the contract (wrong amount, stream full, or not included)",
            )
        },
        FailReason::Evicted { missed_tick, peers, tier } => {
            let s = then_text(
                String::from_str("evicted by the contract: the step at tick "),
                *missed_tick as u64,
                " was not accepted (reported by ",
            );
            let s = then_text(s, *peers as u64, " peers), the stake of ");
            then_text(s, *tier, " QU was forfeited")
        },
        FailReason::StepNotAccepted { due_tick, last_accepted, peers } => {
            let s = then_text(
                String::from_str("the step at tick "),
                *due_tick as u64,
                " was not accepted by the contract (last accepted tick ",
            );
            let s = then_text(s, *last_accepted as u64, ", reported by ");
            then_text(s, *peers as u64, " peers)")
        },
        FailReason::LeaveNotIncluded { leave_tick, tier } => {
            let s = then_text(
                String::from_str("the reveal-and-leave at tick "),
                *leave_tick as u64,
                " was not included in its tick; the provider was evicted and the stake of ",
            );
            then_text(s, *tier, " QU forfeited")
        },
        FailReason::LeaveUnverified { leave_tick } => {
            let s = then_text(
                String::from_str("the reveal-and-leave at tick "),
                *leave_tick as u64,
                " could not be verified: peers did not report on it within ",
            );
            then_text(s, LEAVE_VERIFY_TICKS as u64, " ticks")
        },
        FailReason::SentTooLate { step, tick, latest } => {
            let s = then_text(String::from_str("step "), *step, " (tick ");
            let s = then_text(s, *tick as u64, ") could not be sent in time; the latest tick was already ");
            let t = then_text(s, *latest as u64, "");
            proof {
                reveal_strlit("");
            }
            assert(t@ =~= spec_reason_text(*reason));
            t
        },
    }
}

/// What a failure does about "keep mining".
#[derive(Debug, PartialEq, Eq)]
pub enum Restart {
    /// The session was not started with "keep mining".
    Off,
    /// The seed is no longer held (the wallet was restarted).
    SeedGone,
    /// Too many failures in a row without an accepted step.
    GaveUp { streak: u32 },
    /// Start a fresh session from the same identity.
    Start { streak: u32, tier: u64, first_tick: u32, steps: u32 },
}

/// The failure streak after this session: reset when it got a step accepted
/// (its accepted tick reached its first tick), else one more.
pub open spec fn spec_next_streak(row: Seq<(String, String)>) -> u32 {
    let progressed = or_u32(opt_u32(row, "last_accepted_tick"@), 0) >= or_u32(
        opt_u32(row, "first_tick"@),
        u32::MAX,
    );
    if progressed {
        0
    } else {
        let s = or_u32(opt_u32(row, "fail_streak"@), 0);
        if s < u32::MAX {
            (s + 1) as u32
        } else {
            u32::MAX
        }
    }
}

/// What a failure of this session does about "keep mining".
pub open spec fn spec_restart_plan(
    row: Seq<(String, String)>,
    seed_held: bool,
    latest: u32,
    default_steps: u32,
) -> Restart {
    let streak = spec_next_streak(row);
    if text_of(row, "auto_restart"@) != "1"@ {
        Restart::Off
    } else if !seed_held {
        Restart::SeedGone
    } else if streak >= MAX_FAIL_STREAK {
        Restart::GaveUp { streak }
    } else {
        Restart::Start {
            streak,
            tier: or_u64(opt_u64(row, "tier"@), 0),
            first_tick: (latest + FIRST_COMMIT_LEAD_TICKS) as u32,
            steps: or_u32(opt_u32(row, "total_steps"@), default_steps),
        }
    }
}

/// Decides what the failure of a session (its stored row) does about "keep
/// mining", given whether its seed is still held and the latest tick.
pub fn restart_plan(row: &Vec<(String, String)>, seed_held: bool, latest: u32, default_steps: u32) -> (r:
    Restart)
    requires
        latest + FIRST_COMMIT_LEAD_TICKS <= u32::MAX,
    ensures
        r == spec_restart_plan(row@, seed_held, latest, default_steps),
{
    let accepted = match num_u32(row, "last_accepted_tick") {
        Some(v) => v,
        None => 0,
    };
    let first = match num_u32(row, "first_tick") {
        Some(v) => v,
        None => u32::MAX,
    };
    let streak: u32 = if accepted >= first {
        0
    } else {
        let s = match num_u32(row, "fail_streak") {
            Some(v) => v,
            None => 0,
        };
        if s < u32::MAX { s + 1 } else { u32::MAX }
    };
    let flag = get(row, "auto_restart");
    proof {
        reveal_strlit("1");
    }
    if !same_text(flag.as_str(), "1") {
        return Restart::Off;
    }
    if !seed_held {
        return Restart::SeedGone;
    }
    if streak >= MAX_FAIL_STREAK {
        return Restart::GaveUp { streak };
    }
    let tier = match num_u64(row, "tier") {
        Some(v) => v,
        None => 0,
    };
    let steps = match num_u32(row, "total_steps") {
        Some(v) => v,
        None => default_steps,
    };
    Restart::Start { streak, tier, first_tick: latest + FIRST_COMMIT_LEAD_TICKS, steps }
}

/// What became of the restart, appended to the reason.
pub open spec fn spec_restart_note(plan: Restart, started: Option<Result<i64, String>>) -> Seq<char> {
    match plan {
        Restart::Off => Seq::empty(),
        Restart::SeedGone => "; not restarted: the seed is no longer in memory (Rubic was restarted)"@,
        Restart::GaveUp { streak } => "; not restarted after "@ + decimal(streak as nat)
            + " failures in a row without an accepted step"@,
        Restart::Start { .. } => match started {
            Some(Ok(id)) => "; continued as session "@ + signed_decimal(id as int),
            Some(Err(e)) => "; could not start a new session: "@ + e@,
            None => Seq::empty(),
        },
    }
}

/// The note on the restart appended to a failed session's reason, given the
/// outcome of starting the new session when one was started.
pub fn restart_note(plan: &Restart, started: &Option<Result<i64, String>>) -> (t: String)
    ensures
        t@ == spec_restart_note(*plan, *started),
{
    match plan {
        Restart::Off => String::new(),
        Restart::SeedGone => String::from_str(
            "; not restarted: the seed is no longer in memory (Rubic was restarted)",
        ),
        Restart::GaveUp { streak } => then_text(
            String::from_str("; not restarted after "),
            *streak as u64,
            " failures in a row without an accepted step",
        ),
        Restart::Start { .. } => match started {
            Some(Ok(id)) => {
                let mut s = String::from_str("; continued as session ");
                let n = signed_decimal_text(*id);
                s.append(n.as_str());
                s
            },
            Some(Err(e)) => {
                let mut s = String::from_str("; could not start a new session: ");
                s.append(e.as_str());
                s
            },
            None => String::new(),
        },
    }
}

/// One step of a freshly signed session.
#[derive(Debug, PartialEq, Eq, Clone, Copy)]
pub struct StepPlan {
    pub step: u32,
    pub tick: u32,
    /// Which secret the step reveals (`None`: the first commit reveals nothing).
    pub reveal: Option<u32>,
    /// Which secret the stay variant commits to (`None` for the last step).
    pub commit: Option<u32>,
    /// The step has a stay transaction (every step but the last).
    pub stay: bool,
    /// The step has a leave transaction (every step but the first commit).
    pub leave: bool,
}

/// The number of reveal steps signed for a request of `steps`: at least one,
/// at most `max_steps`.
pub open spec fn clamp_steps(steps: u32, max_steps: u32) -> u32 {
    if steps < 1 {
        1
    } else if steps > max_steps {
        max_steps
    } else {
        steps
    }
}

/// Step `k` of a chain of `steps` reveal steps starting at `first_tick`.
pub open spec fn spec_step_plan(first_tick: u32, steps: u32, k: int) -> StepPlan {
    StepPlan {
        step: k as u32,
        tick: step_tick(first_tick, k) as u32,
        reveal: if k == 0 {
            None
        } else {
            Some((k - 1) as u32)
        },
        commit: if k < steps {
            Some(k as u32)
        } else {
            None
        },
        stay: k < steps,
        leave: k > 0,
    }
}

/// The chain a session signs: the first commit, then `clamp_steps` reveal
/// steps every `STREAM_TICKS` ticks; step k reveals secret k-1 and commits
/// to secret k; the last step only leaves.
pub fn chain_plan(first_tick: u32, steps: u32, max_steps: u32) -> (plan: Vec<StepPlan>)
    requires
        max_steps >= 1,
        first_tick + STREAM_TICKS * clamp_steps(steps, max_steps) <= u32::MAX,
    ensures
        plan@.len() == clamp_steps(steps, max_steps) + 1,
        forall|k: int|
            0 <= k < plan@.len() ==> #[trigger] plan@[k] == spec_step_plan(
                first_tick,
                clamp_steps(steps, max_steps),
                k,
            ),
{
    let n: u32 = if steps < 1 {
        1
    } else if steps > max_steps {
        max_steps
    } else {
        steps
    };
    let mut plan: Vec<StepPlan> = Vec::new();
    let mut k: u64 = 0;
    while k <= n as u64
        invariant
            n == clamp_steps(steps, max_steps),
            first_tick + STREAM_TICKS * n <= u32::MAX,
            k <= n + 1,
            plan@.len() == k,
            forall|j: int| 0 <= j < k ==> #[trigger] plan@[j] == spec_step_plan(first_tick, n, j),
        decreases n + 1 - k,
    {
        let s = k as u32;
        plan.push(
            StepPlan {
                step: s,
                tick: first_tick + 3 * s,
                reveal: if s == 0 { None } else { Some(s - 1) },
                commit: if s < n { Some(s) } else { None },
                stay: s < n,
                leave: s > 0,
            },
        );
        k = k + 1;
    }
    plan
}

} // verus!

verus! {

/// The shape of a plan from step `next`.
pub open spec fn plan_shape(info: SessionInfo, next: int, latest: u32, steps: Seq<(u64, bool)>) -> bool {
    &&& forall|j: int| 0 <= j < steps.len() ==> (#[trigger] steps[j]).0 == next + j
    &&& forall|j: int| 0 <= j < steps.len() ==> (#[trigger] steps[j]).0 < info.total
    &&& forall|j: int| 0 <= j < steps.len() && (#[trigger] steps[j]).1 ==> j == steps.len() - 1
    &&& forall|j: int|
        0 <= j < steps.len() ==> (#[trigger] steps[j]).1 == (steps[j].0 > 0 && (info.status
            == STATUS_STOP_REQUESTED || steps[j].0 + 1 == info.total))
    &&& forall|j: int|
        0 <= j < steps.len() ==> step_tick(info.first_tick, (#[trigger] steps[j]).0 as int) <= latest
            + BROADCAST_LEAD_TICKS
    &&& forall|j: int|
        0 <= j < steps.len() && (#[trigger] steps[j]).0 > 0 ==> step_tick(
            info.first_tick,
            steps[j].0 as int,
        ) > latest + TOO_LATE_TICKS
}

proof fn lemma_plan_shape(info: SessionInfo, next: int, latest: u32)
    requires
        next >= 0,
        info.first_tick + STREAM_TICKS * info.total <= u32::MAX,
    ensures
        plan_shape(info, next, latest, plan_from(info, next, latest).0),
        plan_from(info, next, latest).1 matches Some((t, r)) ==> {
            let k = next + plan_from(info, next, latest).0.len();
            &&& r == FailReason::SentTooLate { step: k as u64, tick: t, latest }
            &&& k > 0
            &&& t == step_tick(info.first_tick, k)
            &&& t <= latest + TOO_LATE_TICKS
        },
    decreases info.total - next,
{
    if next < info.total {
        let t = step_tick(info.first_tick, next);
        if t <= latest + BROADCAST_LEAD_TICKS && !(next > 0 && t <= latest + TOO_LATE_TICKS) {
            let leave = next > 0 && (info.status == STATUS_STOP_REQUESTED || next + 1 == info.total);
            if !leave {
                lemma_plan_shape(info, next + 1, latest);
                let rest = plan_from(info, next + 1, latest).0;
                let all = plan_from(info, next, latest).0;
                assert(all == seq![(next as u64, false)] + rest);
                assert forall|j: int| 1 <= j < all.len() implies #[trigger] all[j] == rest[j - 1] by {}
                assert(all[0] == (next as u64, false));
                if next + 1 < info.total {
                    assert(!(next + 1 == info.total));
                }
            }
        }
    }
}

/// What a pass sends: consecutive steps from the one after the last sent; a
/// step goes out as the leave exactly when it is past the first commit and a
/// stop was requested or it is the chain's last step, and nothing follows a
/// leave; every step is at most `BROADCAST_LEAD_TICKS` ahead of the latest
/// tick, and every step past the first commit more than `TOO_LATE_TICKS`
/// ahead. A window that reaches a step too close to its tick ends the
/// session on that step.
pub proof fn broadcast_window_shape(info: SessionInfo, latest: u32, tick_moved: bool)
    requires
        info.through >= -1,
        info.first_tick + STREAM_TICKS * info.total <= u32::MAX,
    ensures
        plan_shape(info, info.through + 1, latest, spec_broadcast_plan(info, latest, tick_moved).0),
        spec_broadcast_plan(info, latest, tick_moved).1 matches Some((t, r)) ==> {
            let k = info.through + 1 + spec_broadcast_plan(info, latest, tick_moved).0.len();
            &&& r == FailReason::SentTooLate { step: k as u64, tick: t, latest }
            &&& k > 0
            &&& t == step_tick(info.first_tick, k)
            &&& t <= latest + TOO_LATE_TICKS
        },
{
    lemma_plan_shape(info, info.through + 1, latest);
}

/// A stop request takes effect at the next step not yet on the wire: when
/// that step is past the first commit and due, it goes out as the leave and
/// is the only step of the pass.
pub proof fn stop_request_leaves_at_next_step(info: SessionInfo, latest: u32)
    requires
        info.through >= 0,
        info.first_tick + STREAM_TICKS * info.total <= u32::MAX,
        info.leave_step < 0,
        info.status == STATUS_STOP_REQUESTED,
        spec_broadcast_plan(info, latest, true).0.len() > 0,
    ensures
        spec_broadcast_plan(info, latest, true).0 == seq![((info.through + 1) as u64, true)],
{
    lemma_plan_shape(info, info.through + 1, latest);
    let steps = spec_broadcast_plan(info, latest, true).0;
    assert(steps[0].1);
    assert(steps.len() == 1);
    assert(steps =~= seq![((info.through + 1) as u64, true)]);
}

/// The chain links up: the secret each step's stay commits to is the one the
/// next step reveals; the first commit reveals nothing and cannot leave; the
/// last step only leaves; steps sit `STREAM_TICKS` apart.
pub proof fn chain_links_up(first_tick: u32, steps: u32, k: int)
    requires
        0 <= k < steps,
    ensures
        spec_step_plan(first_tick, steps, k).commit == spec_step_plan(first_tick, steps, k + 1).reveal,
        spec_step_plan(first_tick, steps, k + 1).tick as int == spec_step_plan(
            first_tick,
            steps,
            k,
        ).tick as int + STREAM_TICKS || step_tick(first_tick, k + 1) > u32::MAX,
        spec_step_plan(first_tick, steps, 0).reveal is None,
        !spec_step_plan(first_tick, steps, 0).leave,
        !spec_step_plan(first_tick, steps, steps as int).stay,
        spec_step_plan(first_tick, steps, steps as int).leave,
{
}

} // verus!
