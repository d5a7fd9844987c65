//! Sending pending transactions: which are sent for the first time, which
//! RANDOM session steps wait before being sent again, and how urgently each
//! goes out.
use vstd::prelude::*;
use crate::session_store::{binds_of, Statement};
use crate::text::{decimal, parse_u32, parsed_u32, same_text, u32_text_reads_back};
use crate::transfer_store::{set_transfer_as_broadcast, SQL_SET_BROADCAST_AT};

verus! {

/// A pending transaction is sent again once the latest tick moved this far
/// past its previous send.
pub const REBROADCAST_EVERY_TICKS: u32 = 1;
/// RANDOM session steps are sent again this often, after their first send.
pub const STEP_REBROADCAST_EVERY_TICKS: u32 = 3;

/// A transaction is on its first send when its `broadcast` column is missing,
/// `0` or `false`.
pub open spec fn spec_first_send(broadcast: Option<Seq<char>>) -> bool {
    match broadcast {
        Some(b) => b == "0"@ || b == "false"@,
        None => true,
    }
}

pub fn first_send(broadcast: Option<&str>) -> (b: bool)
    ensures
        b == spec_first_send(
            match broadcast {
                Some(t) => Some(t@),
                None => None,
            },
        ),
{
    match broadcast {
        Some(t) => same_text(t, "0") || same_text(t, "false"),
        None => true,
    }
}

/// The tick a transaction was last sent at: its `last_broadcast_tick`
/// column read as a `u32`, or 0.
pub open spec fn spec_last_sent(text: Option<Seq<char>>) -> u32 {
    match text {
        Some(t) => match parsed_u32(t) {
            Some(v) => v,
            None => 0,
        },
        None => 0,
    }
}

/// A RANDOM session step already sent waits until the latest tick is at
/// least `STEP_REBROADCAST_EVERY_TICKS` past its last send.
pub open spec fn spec_hold_back(session_step: bool, first: bool, last_sent: Option<Seq<char>>, latest_tick: u32) -> bool {
    session_step && !first && spec_last_sent(last_sent) + STEP_REBROADCAST_EVERY_TICKS > latest_tick
}

pub fn hold_back(session_step: bool, first: bool, last_sent: Option<&str>, latest_tick: u32) -> (b: bool)
    ensures
        b == spec_hold_back(
            session_step,
            first,
            match last_sent {
                Some(t) => Some(t@),
                None => None,
            },
            latest_tick,
        ),
{
    if session_step && !first {
        let last: u32 = match last_sent {
            Some(t) => match parse_u32(t) {
                Some(v) => v,
                None => 0,
            },
            None => 0,
        };
        (last as u64) + (STEP_REBROADCAST_EVERY_TICKS as u64) > latest_tick as u64
    } else {
        false
    }
}

/// How urgently a send is queued.
#[derive(Debug, Clone, Copy, PartialEq, Eq, Structural)]
pub enum SendPriority {
    /// A first send, ahead of everything.
    Urgent,
    /// A RANDOM session step sent again.
    High,
    /// Any other transaction sent again.
    Routine,
}

pub fn send_priority(first: bool, session_step: bool) -> (p: SendPriority)
    ensures
        p == if first {
            SendPriority::Urgent
        } else if session_step {
            SendPriority::High
        } else {
            SendPriority::Routine
        },
{
    if first {
        SendPriority::Urgent
    } else if session_step {
        SendPriority::High
    } else {
        SendPriority::Routine
    }
}

/// A first send is never held back, nor is anything but a RANDOM session
/// step; a step already sent goes out again only once the latest tick is
/// `STEP_REBROADCAST_EVERY_TICKS` past its last send.
pub proof fn only_resent_steps_wait(session_step: bool, first: bool, last_sent: Option<Seq<char>>, latest_tick: u32)
    ensures
        (first || !session_step) ==> !spec_hold_back(session_step, first, last_sent, latest_tick),
        (session_step && !first && !spec_hold_back(session_step, first, last_sent, latest_tick))
            ==> latest_tick >= spec_last_sent(last_sent) + STEP_REBROADCAST_EVERY_TICKS,
{
}

/// Which transaction a pending transfer is rebuilt as before it is sent.
#[derive(Debug, Clone, Copy, PartialEq, Eq, Structural)]
pub enum TxKind {
    AssetTransfer,
    QxOrder,
    SessionStep,
    Transfer,
}

/// The kind a transfer is rebuilt as, from what the store holds for its id:
/// an asset transfer, else a QX order, else a RANDOM session step when one
/// rebuilds, else a plain transfer. A store error on either lookup sends
/// nothing (`None`); the QX lookup is made only when the asset lookup found
/// nothing. `asset` and `order` are the lookups' results: whether a record
/// was found, or `None` for an error.
pub open spec fn spec_rebuild_kind(asset: Option<bool>, order: Option<bool>, step_rebuilds: bool) -> Option<TxKind> {
    match asset {
        None => None,
        Some(true) => Some(TxKind::AssetTransfer),
        Some(false) => match order {
            None => None,
            Some(true) => Some(TxKind::QxOrder),
            Some(false) => if step_rebuilds {
                Some(TxKind::SessionStep)
            } else {
                Some(TxKind::Transfer)
            },
        },
    }
}

pub fn rebuild_kind(asset: Option<bool>, order: Option<bool>, step_rebuilds: bool) -> (k: Option<TxKind>)
    ensures
        k == spec_rebuild_kind(asset, order, step_rebuilds),
{
    match asset {
        None => None,
        Some(true) => Some(TxKind::AssetTransfer),
        Some(false) => match order {
            None => None,
            Some(true) => Some(TxKind::QxOrder),
            Some(false) => if step_rebuilds {
                Some(TxKind::SessionStep)
            } else {
                Some(TxKind::Transfer)
            },
        },
    }
}

/// The kind a transfer is rebuilt as follows the store's records in this
/// order: an asset transfer record makes it an asset transfer; else a QX
/// order record makes it a QX order, whether or not a session step would
/// rebuild; only with neither record is it a session step (when one
/// rebuilds) or a plain transfer. A failed lookup sends nothing.
pub proof fn the_stored_record_decides_the_kind(asset: Option<bool>, order: Option<bool>, step_rebuilds: bool)
    ensures
        asset is None ==> spec_rebuild_kind(asset, order, step_rebuilds) is None,
        asset == Some(true) ==> spec_rebuild_kind(asset, order, step_rebuilds) == Some(TxKind::AssetTransfer),
        asset == Some(false) && order is None ==> spec_rebuild_kind(asset, order, step_rebuilds) is None,
        spec_rebuild_kind(Some(false), Some(true), step_rebuilds) == Some(TxKind::QxOrder),
        spec_rebuild_kind(Some(false), Some(false), true) == Some(TxKind::SessionStep),
        spec_rebuild_kind(Some(false), Some(false), false) == Some(TxKind::Transfer),
        spec_rebuild_kind(asset, order, step_rebuilds) == Some(TxKind::QxOrder) <==> (asset == Some(false)
            && order == Some(true)),
        spec_rebuild_kind(asset, order, step_rebuilds) == Some(TxKind::Transfer) <==> (asset == Some(false)
            && order == Some(false) && !step_rebuilds),
{
}

/// Across passes: a RANDOM session step already sent goes out again only
/// once the latest tick is `STEP_REBROADCAST_EVERY_TICKS` past its last send,
/// at high priority; any first send goes out at once, urgently; other resends
/// go at routine priority. A pass that sends records the latest tick as the
/// last send, so the next resend of a step waits another three ticks.
pub proof fn resends_are_paced(last_sent: u32, latest_tick: u32, next_tick: u32)
    ensures
        !spec_hold_back(true, false, Some(decimal(last_sent as nat)), latest_tick) ==> latest_tick >= last_sent
            + STEP_REBROADCAST_EVERY_TICKS,
        !spec_hold_back(true, false, Some(decimal(last_sent as nat)), latest_tick) ==> (
        spec_hold_back(true, false, Some(decimal(latest_tick as nat)), next_tick) <==> next_tick < latest_tick
            + STEP_REBROADCAST_EVERY_TICKS),
{
    u32_text_reads_back(last_sent);
    u32_text_reads_back(latest_tick);
}

/// What a pass does with one pending transfer.
#[derive(Debug, Clone, Copy, PartialEq, Eq, Structural)]
pub enum SendAction {
    /// Held back this pass.
    Wait,
    /// Sent, queued with this priority.
    Send(SendPriority),
}

/// A pass holds a resent RANDOM session step back until its pace allows,
/// and sends anything else: a first send urgently, a resent step at high
/// priority, any other resend at routine priority.
pub open spec fn spec_send_action(
    session_step: bool,
    broadcast: Option<Seq<char>>,
    last_sent: Option<Seq<char>>,
    latest_tick: u32,
) -> SendAction {
    let first = spec_first_send(broadcast);
    if spec_hold_back(session_step, first, last_sent, latest_tick) {
        SendAction::Wait
    } else if first {
        SendAction::Send(SendPriority::Urgent)
    } else if session_step {
        SendAction::Send(SendPriority::High)
    } else {
        SendAction::Send(SendPriority::Routine)
    }
}

pub open spec fn opt_text(t: Option<&str>) -> Option<Seq<char>> {
    match t {
        Some(s) => Some(s@),
        None => None,
    }
}

/// The pass's choice for one pending transfer, from its `broadcast` and
/// `last_broadcast_tick` columns and whether it goes to the RANDOM contract.
pub fn send_action(session_step: bool, broadcast: Option<&str>, last_sent: Option<&str>, latest_tick: u32) -> (a:
    SendAction)
    ensures
        a == spec_send_action(session_step, opt_text(broadcast), opt_text(last_sent), latest_tick),
{
    let first = first_send(broadcast);
    if hold_back(session_step, first, last_sent, latest_tick) {
        SendAction::Wait
    } else {
        SendAction::Send(send_priority(first, session_step))
    }
}

/// A transfer is marked broadcast when it was sent this pass and the peers
/// took its request.
pub open spec fn spec_marks(action: SendAction, request_ok: bool) -> bool {
    action is Send && request_ok
}

/// What the pass stores for one transfer once its request returned: the
/// broadcast mark, with this pass's tick as its last send, when the request
/// was made and taken; nothing when it was held back or the request failed.
pub fn record_send(action: SendAction, request_ok: bool, txid: &str, latest_tick: u32) -> (st: Option<Statement>)
    ensures
        st is Some <==> spec_marks(action, request_ok),
        st matches Some(s) ==> s.sql == SQL_SET_BROADCAST_AT && binds_of(s) == seq![
            (":txid"@, txid@),
            (":tick"@, decimal(latest_tick as nat)),
        ],
{
    match action {
        SendAction::Send(_) => if request_ok {
            Some(set_transfer_as_broadcast(txid, Some(latest_tick)))
        } else {
            None
        },
        SendAction::Wait => None,
    }
}

/// Over a pass, a transfer is marked broadcast only after its request was
/// made and taken; a RANDOM session step already sent is sent, and marked,
/// only once the latest tick is `STEP_REBROADCAST_EVERY_TICKS` past its last
/// send, at high priority; a first send is never held back and goes out
/// urgently.
pub proof fn a_transfer_is_marked_only_after_its_request(
    session_step: bool,
    broadcast: Option<Seq<char>>,
    last_sent: Option<Seq<char>>,
    latest_tick: u32,
    request_ok: bool,
)
    ensures
        ({
            let a = spec_send_action(session_step, broadcast, last_sent, latest_tick);
            &&& spec_marks(a, request_ok) ==> request_ok
            &&& (spec_marks(a, request_ok) && session_step && !spec_first_send(broadcast)) ==> spec_last_sent(
                last_sent,
            ) + STEP_REBROADCAST_EVERY_TICKS <= latest_tick
            &&& spec_first_send(broadcast) ==> a == SendAction::Send(SendPriority::Urgent)
            &&& (session_step && !spec_first_send(broadcast)) ==> (a == SendAction::Wait || a == SendAction::Send(
                SendPriority::High,
            ))
        }),
{
}

} // verus!
