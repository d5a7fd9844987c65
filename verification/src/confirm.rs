//! Settling broadcast transfers whose tick has passed: first from the peers'
//! entity reports for the source identity, then from the tick's stored
//! transaction digests.
use vstd::prelude::*;
use std::collections::HashMap;
use vstd::std_specs::hash::spec_keys_iter;
use vstd::std_specs::iter::IteratorSpec;
use crate::base64_text::{b64_no_pad_decoded, decode_no_pad};
use crate::case_text::{lowercase, to_lower};
use crate::session_store::{binds_of, Statement};
use crate::text::{parse_i32, parsed_i32, same_text};
use crate::transfer_store::{set_transfer_as_broadcast, SQL_SET_BROADCAST};

verus! {

broadcast use vstd::std_specs::hash::group_hash_axioms;

/// How many ticks past a transfer's tick a peer report must be before "no
/// outgoing transfer at that tick" is taken to mean the transfer failed.
pub const ENTITY_REPORT_GRACE_TICKS: u32 = 5;
/// A transfer this many ticks behind the latest tick is given up as failed.
pub const TOO_OLD_TICKS: u32 = 35000;
/// Shorter stored digest texts mean the tick data has not arrived yet.
pub const MIN_DIGEST_TEXT: usize = 8;
/// A transaction digest is this many bytes.
pub const DIGEST_LEN: usize = 32;

/// Outcome of settling a transfer from the entity reports.
#[derive(Debug, Clone, Copy, PartialEq, Eq, Structural)]
pub enum Settled {
    Confirmed,
    Failed,
    Undecided,
}

/// The latest entity report for the source identity, as
/// `(report tick, tick of its latest outgoing transfer, agreeing peers)`,
/// settles the transfer at `tx_tick`: a report from after that tick backed by
/// two peers or more confirms it when the latest outgoing transfer is at that
/// tick, and fails it when that transfer is older and the report is more than
/// the grace ticks later. A later outgoing transfer leaves it open.
pub open spec fn spec_settle(report: Option<(u32, u32, u32)>, tx_tick: u32) -> Settled {
    match report {
        None => Settled::Undecided,
        Some((report_tick, latest_out, peers)) => {
            if peers < 2 || report_tick <= tx_tick {
                Settled::Undecided
            } else if latest_out == tx_tick {
                Settled::Confirmed
            } else if latest_out < tx_tick && report_tick > tx_tick + ENTITY_REPORT_GRACE_TICKS {
                Settled::Failed
            } else {
                Settled::Undecided
            }
        },
    }
}

pub fn settle_from_entity_report(report: Option<(u32, u32, u32)>, tx_tick: u32) -> (s: Settled)
    ensures
        s == spec_settle(report, tx_tick),
{
    match report {
        None => Settled::Undecided,
        Some((report_tick, latest_out, peers)) => {
            if peers < 2 || report_tick <= tx_tick {
                Settled::Undecided
            } else if latest_out == tx_tick {
                Settled::Confirmed
            } else if latest_out < tx_tick && (report_tick as u64) > (tx_tick as u64) + (ENTITY_REPORT_GRACE_TICKS as u64) {
                Settled::Failed
            } else {
                Settled::Undecided
            }
        },
    }
}

/// What the stored tick holds of the data needed to check a transfer.
#[derive(Debug, Clone, Copy, PartialEq, Eq)]
pub struct TickRecord {
    /// The tick's `valid` column, read as a number.
    pub valid: i32,
    /// Byte length of the stored digests hash.
    pub digests_hash_len: usize,
    /// Byte length of the stored digests.
    pub digests_len: usize,
}

/// What one pass does for a broadcast transfer that the reports left open.
#[derive(Debug, Clone, Copy, PartialEq, Eq)]
pub enum ConfirmAction {
    /// The reports confirmed it: ask for the source's balance and holdings
    /// right away when `refresh_source`.
    Confirmed { refresh_source: bool },
    /// The reports failed it.
    Failed,
    /// Too far behind the latest tick: mark it failed.
    TooOld,
    /// The tick, its digests hash or its digests are missing or unvalidated:
    /// ask the peers for the tick data.
    RequestTickData,
    /// The digests are there: look for the transfer among them.
    CheckDigests,
}

/// The pass's action for a transfer at `tx_tick` (sent to the RANDOM
/// contract when `to_contract`), given how the reports settled it, the latest
/// tick and the stored tick, if any.
pub open spec fn spec_confirm_action(
    settled: Settled,
    to_contract: bool,
    latest_tick: u32,
    tx_tick: u32,
    tick: Option<TickRecord>,
) -> ConfirmAction {
    match settled {
        Settled::Confirmed => ConfirmAction::Confirmed { refresh_source: !to_contract },
        Settled::Failed => ConfirmAction::Failed,
        Settled::Undecided => {
            if latest_tick - tx_tick > TOO_OLD_TICKS {
                ConfirmAction::TooOld
            } else {
                match tick {
                    None => ConfirmAction::RequestTickData,
                    Some(t) => {
                        if t.valid > 0 && t.digests_hash_len >= MIN_DIGEST_TEXT && t.digests_len >= MIN_DIGEST_TEXT {
                            ConfirmAction::CheckDigests
                        } else {
                            ConfirmAction::RequestTickData
                        }
                    },
                }
            }
        },
    }
}

/// The transfers looked at have expired, so their tick is not past the latest.
pub fn confirm_action(
    settled: Settled,
    to_contract: bool,
    latest_tick: u32,
    tx_tick: u32,
    tick: Option<TickRecord>,
) -> (a: ConfirmAction)
    requires
        tx_tick <= latest_tick,
    ensures
        a == spec_confirm_action(settled, to_contract, latest_tick, tx_tick, tick),
{
    match settled {
        Settled::Confirmed => ConfirmAction::Confirmed { refresh_source: !to_contract },
        Settled::Failed => ConfirmAction::Failed,
        Settled::Undecided => {
            if latest_tick - tx_tick > TOO_OLD_TICKS {
                ConfirmAction::TooOld
            } else {
                match tick {
                    None => ConfirmAction::RequestTickData,
                    Some(t) => {
                        if t.valid > 0 && t.digests_hash_len >= MIN_DIGEST_TEXT && t.digests_len >= MIN_DIGEST_TEXT {
                            ConfirmAction::CheckDigests
                        } else {
                            ConfirmAction::RequestTickData
                        }
                    },
                }
            }
        },
    }
}

/// The tick's `valid` column as the confirmer reads it: lowercased, then
/// parsed as an `i32`.
pub fn parse_valid(text: &str) -> (r: Option<i32>)
    ensures
        r == parsed_i32(lowercase(text@)),
{
    let lower = to_lower(text);
    parse_i32(lower.as_str())
}

/// The `i`-th 32-byte digest of a digest list.
pub open spec fn digest_at(bytes: Seq<u8>, i: int) -> Seq<u8> {
    bytes.subrange(i * 32, i * 32 + 32)
}

/// The whole 32-byte digests of a byte list, in order; a shorter tail is
/// left out.
pub open spec fn digests_of(bytes: Seq<u8>) -> Seq<Seq<u8>> {
    Seq::new(bytes.len() / 32, |i: int| digest_at(bytes, i))
}

/// Splits bytes into their whole 32-byte digests, as `chunks_exact(32)` does.
pub fn split_digests(bytes: &Vec<u8>) -> (out: Vec<Vec<u8>>)
    ensures
        out@.len() == bytes@.len() / 32,
        forall|i: int| 0 <= i < out@.len() ==> #[trigger] out@[i]@ == digest_at(bytes@, i),
{
    let n: usize = bytes.len() / DIGEST_LEN;
    let mut out: Vec<Vec<u8>> = Vec::new();
    let mut i: usize = 0;
    while i < n
        invariant
            n == bytes@.len() / 32,
            i <= n,
            out@.len() == i,
            forall|k: int| 0 <= k < i ==> #[trigger] out@[k]@ == digest_at(bytes@, k),
        decreases n - i,
    {
        assert(i * 32 + 32 <= bytes@.len()) by (nonlinear_arith)
            requires
                i < n,
                n == bytes@.len() / 32,
        ;
        assert(bytes@.len() == bytes.len());
        let mut d: Vec<u8> = Vec::new();
        let start: usize = i * 32;
        let mut j: usize = 0;
        while j < DIGEST_LEN
            invariant
                start == i * 32,
                start + 32 <= bytes@.len(),
                j <= 32,
                d@ == bytes@.subrange(start as int, start + j),
            decreases 32 - j,
        {
            d.push(bytes[start + j]);
            assert(d@ =~= bytes@.subrange(start as int, start + j + 1));
            j = j + 1;
        }
        out.push(d);
        i = i + 1;
    }
    out
}

/// The transaction digests stored for a tick: the unpadded base64 text
/// decoded and split into whole 32-byte digests, or `None` where the text is
/// not unpadded base64.
pub fn stored_digests(text: &str) -> (r: Option<Vec<Vec<u8>>>)
    ensures
        match b64_no_pad_decoded(text@) {
            Some(bytes) => r is Some && r->0@.len() == digests_of(bytes).len()
                && forall|i: int| 0 <= i < r->0@.len() ==> #[trigger] r->0@[i]@ == digests_of(bytes)[i],
            None => r is None,
        },
{
    match decode_no_pad(text) {
        Some(bytes) => Some(split_digests(&bytes)),
        None => None,
    }
}

/// Whether the transfer's id is among the tick's transaction ids, compared
/// after lowercasing both.
pub open spec fn spec_included(txid: Seq<char>, ids: Seq<Seq<char>>) -> bool {
    exists|i: int| 0 <= i < ids.len() && lowercase(#[trigger] ids[i]) == lowercase(txid)
}

pub fn included(txid: &str, ids: &Vec<String>) -> (b: bool)
    ensures
        b == spec_included(txid@, ids@.map_values(|s: String| s@)),
{
    let ghost names = ids@.map_values(|s: String| s@);
    let want = to_lower(txid);
    let mut i: usize = 0;
    while i < ids.len()
        invariant
            i <= ids@.len(),
            names == ids@.map_values(|s: String| s@),
            want@ == lowercase(txid@),
            forall|k: int| 0 <= k < i ==> lowercase(#[trigger] names[k]) != lowercase(txid@),
        decreases ids.len() - i,
    {
        let got = to_lower(ids[i].as_str());
        assert(names[i as int] == ids@[i as int]@);
        if same_text(got.as_str(), want.as_str()) {
            return true;
        }
        i = i + 1;
    }
    false
}

/// Tick data for one tick is asked for at most this often (ms).
pub const TICK_DATA_INTERVAL_MS: u64 = 10_000;
/// What was asked for longer ago than this (ms) is forgotten.
pub const TICK_DATA_MEMORY_MS: u64 = 3_600_000;

/// Time from `at` to `now`, none when the clock reads earlier.
pub open spec fn elapsed(at: u64, now: u64) -> int {
    if now >= at { now - at } else { 0 }
}

/// The requests still remembered at `now`: those made less than
/// `TICK_DATA_MEMORY_MS` before it.
pub open spec fn keep_recent(m: Map<u32, u64>, now: u64) -> Map<u32, u64> {
    Map::new(|t: u32| m.contains_key(t) && elapsed(m[t], now) < TICK_DATA_MEMORY_MS, |t: u32| m[t])
}

/// Tick data for `tick` may be asked for at `now`: it never was, or last was
/// at least `TICK_DATA_INTERVAL_MS` before.
pub open spec fn may_ask(m: Map<u32, u64>, tick: u32, now: u64) -> bool {
    !m.contains_key(tick) || elapsed(m[tick], now) >= TICK_DATA_INTERVAL_MS
}

/// When tick data was last asked for, per tick.
pub struct TickRequests {
    last: HashMap<u32, u64>,
}

impl View for TickRequests {
    type V = Map<u32, u64>;

    closed spec fn view(&self) -> Map<u32, u64> {
        self.last@
    }
}

/// The ticks of `m` whose request is at least `TICK_DATA_MEMORY_MS` old.
fn stale_ticks(m: &HashMap<u32, u64>, now_ms: u64) -> (out: Vec<u32>)
    ensures
        forall|t: u32| out@.contains(t) <==> (m@.contains_key(t) && elapsed(m@[t], now_ms) >= TICK_DATA_MEMORY_MS),
{
    let mut out: Vec<u32> = Vec::new();
    let ghost ks = spec_keys_iter(m).remaining();
    for k in it: m.keys()
        invariant
            it.seq() == ks,
            ks.unref().to_set() == m@.dom(),
            forall|x: u32|
                out@.contains(x) <==> (exists|j: int|
                    0 <= j < it.index() && *ks[j] == x && m@.contains_key(x) && elapsed(m@[x], now_ms)
                        >= TICK_DATA_MEMORY_MS),
    {
        let ghost i0 = it.index();
        let ghost out0 = out@;
        assert(*k == *ks[i0]);
        assert(ks.unref().to_set().contains(*k));
        let at = *m.get(k).unwrap();
        let ghost pushed = elapsed(m@[*k], now_ms) >= TICK_DATA_MEMORY_MS;
        if now_ms >= at && now_ms - at >= TICK_DATA_MEMORY_MS {
            out.push(*k);
            assert(out@[out0.len() as int] == *k);
        }
        assert(pushed ==> out@ == out0.push(*k));
        assert(!pushed ==> out@ == out0);
        proof {
            assert forall|x: u32|
                out@.contains(x) <==> (exists|j: int|
                    0 <= j < i0 + 1 && *ks[j] == x && m@.contains_key(x) && elapsed(m@[x], now_ms)
                        >= TICK_DATA_MEMORY_MS) by {
                if out@.contains(x) {
                    if out0.contains(x) {
                        let j = choose|j: int|
                            0 <= j < i0 && *ks[j] == x && m@.contains_key(x) && elapsed(m@[x], now_ms)
                                >= TICK_DATA_MEMORY_MS;
                        assert(0 <= j < i0 + 1 && *ks[j] == x);
                    } else {
                        let i = choose|i: int| 0 <= i < out@.len() && out@[i] == x;
                        if i < out0.len() {
                            assert(out0[i] == x);
                        }
                        assert(pushed);
                        assert(*ks[i0] == x);
                    }
                }
                if exists|j: int|
                    0 <= j < i0 + 1 && *ks[j] == x && m@.contains_key(x) && elapsed(m@[x], now_ms)
                        >= TICK_DATA_MEMORY_MS {
                    let j = choose|j: int|
                        0 <= j < i0 + 1 && *ks[j] == x && m@.contains_key(x) && elapsed(m@[x], now_ms)
                            >= TICK_DATA_MEMORY_MS;
                    if j < i0 {
                        assert(out0.contains(x));
                        let i = choose|i: int| 0 <= i < out0.len() && out0[i] == x;
                        assert(out@[i] == x);
                    } else {
                        assert(out@.contains(x));
                    }
                }
            }
        }
    }
    assert forall|x: u32|
        (m@.contains_key(x) && elapsed(m@[x], now_ms) >= TICK_DATA_MEMORY_MS) implies out@.contains(x) by {
        assert(ks.unref().to_set().contains(x));
        let j = choose|j: int| 0 <= j < ks.unref().len() && ks.unref()[j] == x;
        assert(*ks[j] == x);
    }
    out
}

impl TickRequests {
    pub fn new() -> (r: Self)
        ensures
            r@ == Map::<u32, u64>::empty(),
    {
        TickRequests { last: HashMap::new() }
    }

    /// Forgets the requests made more than an hour before `now_ms`.
    pub fn forget_old(&mut self, now_ms: u64)
        ensures
            final(self)@ == keep_recent(old(self)@, now_ms),
    {
        let ghost m0 = self@;
        let stale = stale_ticks(&self.last, now_ms);
        let mut i: usize = 0;
        while i < stale.len()
            invariant
                i <= stale@.len(),
                forall|t: u32| stale@.contains(t) <==> (m0.contains_key(t) && elapsed(m0[t], now_ms) >= TICK_DATA_MEMORY_MS),
                forall|t: u32|
                    #[trigger] self@.contains_key(t) <==> (m0.contains_key(t) && forall|j: int|
                        0 <= j < i ==> stale@[j] != t),
                forall|t: u32| self@.contains_key(t) ==> #[trigger] self@[t] == m0[t],
            decreases stale@.len() - i,
        {
            let t = stale[i];
            let ghost before = self@;
            self.last.remove(&t);
            assert(self@ == before.remove(t));
            i = i + 1;
        }
        assert forall|t: u32| self@.contains_key(t) <==> keep_recent(m0, now_ms).contains_key(t) by {
            if stale@.contains(t) {
                let j = choose|j: int| 0 <= j < stale@.len() && stale@[j] == t;
                assert(stale@[j] == t);
            }
        }
        assert(self@ =~= keep_recent(m0, now_ms));
    }

    /// Whether tick data for `tick` may be asked for at `now_ms`: not when it
    /// was asked for less than ten seconds before. When it may, the request
    /// is recorded at `now_ms`.
    pub fn note_request(&mut self, tick: u32, now_ms: u64) -> (go: bool)
        ensures
            go == may_ask(old(self)@, tick, now_ms),
            final(self)@ == if go {
                old(self)@.insert(tick, now_ms)
            } else {
                old(self)@
            },
    {
        match self.last.get(&tick) {
            Some(at) => {
                let at = *at;
                if now_ms < at || now_ms - at < TICK_DATA_INTERVAL_MS {
                    return false;
                }
            },
            None => {},
        }
        self.last.insert(tick, now_ms);
        true
    }
}

/// A report backed by a single peer settles no transfer.
pub proof fn one_peer_never_settles_a_transfer(report_tick: u32, latest_out: u32, peers: u32, tx_tick: u32)
    requires
        peers < 2,
    ensures
        spec_settle(Some((report_tick, latest_out, peers)), tx_tick) == Settled::Undecided,
{
}

/// What a report settles, for every report: it confirms the transfer
/// exactly when at least two peers back it, it is from after the transfer's
/// tick, and the source's latest outgoing transfer is at that very tick, how
/// late the report is does not matter; it fails the transfer exactly when at
/// least two peers back it, it is more than the grace ticks past the
/// transfer's tick, and the latest outgoing transfer is older; anything else
/// leaves the transfer open.
pub proof fn reports_settle_exactly_on_agreement(report_tick: u32, latest_out: u32, peers: u32, tx_tick: u32)
    ensures
        spec_settle(Some((report_tick, latest_out, peers)), tx_tick) == Settled::Confirmed <==> (peers >= 2
            && report_tick > tx_tick && latest_out == tx_tick),
        spec_settle(Some((report_tick, latest_out, peers)), tx_tick) == Settled::Failed <==> (peers >= 2
            && report_tick > tx_tick + ENTITY_REPORT_GRACE_TICKS && latest_out < tx_tick),
        spec_settle(Some((report_tick, latest_out, peers)), tx_tick) == Settled::Undecided <==> !((peers >= 2
            && report_tick > tx_tick && latest_out == tx_tick) || (peers >= 2 && report_tick > tx_tick
            + ENTITY_REPORT_GRACE_TICKS && latest_out < tx_tick)),
        spec_settle(None, tx_tick) == Settled::Undecided,
{
}

/// A report from the transfer's tick or before settles nothing.
pub proof fn only_later_reports_settle(report_tick: u32, latest_out: u32, peers: u32, tx_tick: u32)
    requires
        report_tick <= tx_tick,
    ensures
        spec_settle(Some((report_tick, latest_out, peers)), tx_tick) == Settled::Undecided,
{
}

/// A transfer is failed from the reports only once they are more than the
/// grace ticks past its tick and show no outgoing transfer from it on.
pub proof fn reports_fail_only_after_the_grace(report: Option<(u32, u32, u32)>, tx_tick: u32)
    requires
        spec_settle(report, tx_tick) == Settled::Failed,
    ensures
        match report {
            Some((report_tick, latest_out, peers)) => {
                &&& report_tick > tx_tick + ENTITY_REPORT_GRACE_TICKS
                &&& latest_out < tx_tick
                &&& peers >= 2
            },
            None => false,
        },
{
}

/// Tick data for a tick is not asked for twice within the interval: once a
/// request is let through at `first`, one at `second` less than the interval
/// later is held back, and one at least the interval later goes through.
pub proof fn tick_data_not_asked_twice_within_interval(m: Map<u32, u64>, tick: u32, first: u64, second: u64)
    requires
        first <= second,
    ensures
        ({
            let after = m.insert(tick, first);
            &&& after.contains_key(tick)
            &&& may_ask(after, tick, second) <==> second >= first + TICK_DATA_INTERVAL_MS
        }),
{
}

/// The tick is stored, valid, with its digests hash and digests.
pub open spec fn digests_stored(tick: Option<TickRecord>) -> bool {
    match tick {
        Some(t) => t.valid > 0 && t.digests_hash_len >= MIN_DIGEST_TEXT && t.digests_len >= MIN_DIGEST_TEXT,
        None => false,
    }
}

/// The status a pass gives a transfer: 0 confirmed, 1 failed, `None` left
/// pending (-1). `found` says whether the transfer's id was among the tick's
/// transaction ids, where the action was to look.
pub open spec fn spec_status_after(action: ConfirmAction, found: bool) -> Option<i64> {
    match action {
        ConfirmAction::Confirmed { .. } => Some(0),
        ConfirmAction::Failed => Some(1),
        ConfirmAction::TooOld => Some(1),
        ConfirmAction::RequestTickData => None,
        ConfirmAction::CheckDigests => if found { Some(0) } else { Some(1) },
    }
}

pub fn status_after(action: ConfirmAction, found: bool) -> (s: Option<i64>)
    ensures
        s == spec_status_after(action, found),
{
    match action {
        ConfirmAction::Confirmed { .. } => Some(0),
        ConfirmAction::Failed => Some(1),
        ConfirmAction::TooOld => Some(1),
        ConfirmAction::RequestTickData => None,
        ConfirmAction::CheckDigests => if found { Some(0) } else { Some(1) },
    }
}

/// A pass over a pending transfer at tick `tx_tick` (at most the latest tick)
/// confirms it only when the reports confirm it, or its tick's digests are
/// stored and hold its id; fails it only when the reports fail it, it is more
/// than `TOO_OLD_TICKS` behind, or its tick's digests are stored and lack its
/// id; and otherwise leaves it pending, asking for the tick data.
pub proof fn a_pass_settles_a_transfer_only_on_evidence(
    settled: Settled,
    to_contract: bool,
    latest_tick: u32,
    tx_tick: u32,
    tick: Option<TickRecord>,
    found: bool,
)
    requires
        tx_tick <= latest_tick,
    ensures
        ({
            let action = spec_confirm_action(settled, to_contract, latest_tick, tx_tick, tick);
            let digests_there = latest_tick - tx_tick <= TOO_OLD_TICKS && digests_stored(tick);
            &&& spec_status_after(action, found) == Some(0i64) <==> (settled == Settled::Confirmed || (settled
                == Settled::Undecided && digests_there && found))
            &&& spec_status_after(action, found) == Some(1i64) <==> (settled == Settled::Failed || (settled
                == Settled::Undecided && (latest_tick - tx_tick > TOO_OLD_TICKS || (digests_there && !found))))
            &&& spec_status_after(action, found) is None <==> (settled == Settled::Undecided && latest_tick - tx_tick
                <= TOO_OLD_TICKS && !digests_there)
            &&& action == ConfirmAction::RequestTickData <==> spec_status_after(action, found) is None
        }),
{
}

/// Past this many ticks behind the latest, the single-thread loop gives up a
/// transfer whose tick it does not have.
pub const LOOP_TOO_OLD_TICKS: u32 = 350000;

/// What the single-thread peer loop does for a broadcast transfer still pending.
#[derive(Debug, Clone, Copy, PartialEq, Eq)]
pub enum LoopAction {
    /// The tick is not stored and the transfer is too far behind: mark it failed.
    TooOld,
    /// Ask the peers for the tick itself (quorum tick).
    RequestQuorumTick,
    /// Ask the peers for the tick's transactions.
    RequestTickData,
    /// Look for the transfer among the tick's digests.
    CheckDigests,
}

/// The single-thread loop's choice: with the tick stored and valid, ask for
/// the tick while its digests hash is missing, for its data while its digests
/// are, else check them; with the tick stored but not valid, ask for it
/// again; without the tick, give up past `LOOP_TOO_OLD_TICKS`, else ask for it.
pub open spec fn spec_loop_action(latest_tick: u32, tx_tick: u32, tick: Option<TickRecord>) -> LoopAction {
    match tick {
        Some(t) => if t.valid > 0 {
            if t.digests_hash_len < MIN_DIGEST_TEXT {
                LoopAction::RequestQuorumTick
            } else if t.digests_len < MIN_DIGEST_TEXT {
                LoopAction::RequestTickData
            } else {
                LoopAction::CheckDigests
            }
        } else {
            LoopAction::RequestQuorumTick
        },
        None => if latest_tick - tx_tick > LOOP_TOO_OLD_TICKS {
            LoopAction::TooOld
        } else {
            LoopAction::RequestQuorumTick
        },
    }
}

/// The transfers looked at have expired, so their tick is not past the latest.
pub fn loop_action(latest_tick: u32, tx_tick: u32, tick: Option<TickRecord>) -> (a: LoopAction)
    requires
        tx_tick <= latest_tick,
    ensures
        a == spec_loop_action(latest_tick, tx_tick, tick),
{
    match tick {
        Some(t) => if t.valid > 0 {
            if t.digests_hash_len < MIN_DIGEST_TEXT {
                LoopAction::RequestQuorumTick
            } else if t.digests_len < MIN_DIGEST_TEXT {
                LoopAction::RequestTickData
            } else {
                LoopAction::CheckDigests
            }
        } else {
            LoopAction::RequestQuorumTick
        },
        None => if latest_tick - tx_tick > LOOP_TOO_OLD_TICKS {
            LoopAction::TooOld
        } else {
            LoopAction::RequestQuorumTick
        },
    }
}

/// The single-thread loop fetches what is missing in order: with the tick
/// stored and valid, the tick itself (which brings its digests hash) while
/// that hash is missing, whatever the digests hold; the tick's data only once
/// the hash is there and the digests are not; it checks the digests only
/// with both there. A stored tick not valid is asked for again; a tick not
/// stored is asked for unless the transfer is past `LOOP_TOO_OLD_TICKS`.
pub proof fn loop_fetches_the_tick_before_its_data(latest_tick: u32, tx_tick: u32, t: TickRecord)
    requires
        tx_tick <= latest_tick,
    ensures
        t.valid > 0 && t.digests_hash_len < MIN_DIGEST_TEXT ==> spec_loop_action(latest_tick, tx_tick, Some(t))
            == LoopAction::RequestQuorumTick,
        t.valid > 0 && t.digests_hash_len >= MIN_DIGEST_TEXT && t.digests_len < MIN_DIGEST_TEXT
            ==> spec_loop_action(latest_tick, tx_tick, Some(t)) == LoopAction::RequestTickData,
        t.valid > 0 && t.digests_hash_len >= MIN_DIGEST_TEXT && t.digests_len >= MIN_DIGEST_TEXT
            ==> spec_loop_action(latest_tick, tx_tick, Some(t)) == LoopAction::CheckDigests,
        t.valid <= 0 ==> spec_loop_action(latest_tick, tx_tick, Some(t)) == LoopAction::RequestQuorumTick,
        spec_loop_action(latest_tick, tx_tick, Some(t)) == LoopAction::RequestTickData <==> (t.valid > 0
            && t.digests_hash_len >= MIN_DIGEST_TEXT && t.digests_len < MIN_DIGEST_TEXT),
        latest_tick - tx_tick > LOOP_TOO_OLD_TICKS ==> spec_loop_action(latest_tick, tx_tick, None)
            == LoopAction::TooOld,
        latest_tick - tx_tick <= LOOP_TOO_OLD_TICKS ==> spec_loop_action(latest_tick, tx_tick, None)
            == LoopAction::RequestQuorumTick,
{
}

/// The status the single-thread loop gives a transfer: 0 confirmed, 1
/// failed, `None` left pending. `found` says whether the transfer's id was
/// among the tick's transaction ids, where the action was to look.
pub open spec fn spec_loop_status(action: LoopAction, found: bool) -> Option<i64> {
    match action {
        LoopAction::TooOld => Some(1),
        LoopAction::CheckDigests => if found {
            Some(0)
        } else {
            Some(1)
        },
        LoopAction::RequestQuorumTick => None,
        LoopAction::RequestTickData => None,
    }
}

pub fn loop_status(action: LoopAction, found: bool) -> (s: Option<i64>)
    ensures
        s == spec_loop_status(action, found),
{
    match action {
        LoopAction::TooOld => Some(1),
        LoopAction::CheckDigests => if found {
            Some(0)
        } else {
            Some(1)
        },
        LoopAction::RequestQuorumTick => None,
        LoopAction::RequestTickData => None,
    }
}

/// What the single-thread loop stores once the request sending transfer
/// `txid` returned: the broadcast mark when the peers took it, else nothing.
pub fn loop_record_send(request_ok: bool, txid: &str) -> (st: Option<Statement>)
    ensures
        st is Some <==> request_ok,
        st matches Some(s) ==> s.sql == SQL_SET_BROADCAST && binds_of(s) == seq![(":txid"@, txid@)],
{
    if request_ok {
        Some(set_transfer_as_broadcast(txid, None))
    } else {
        None
    }
}

/// In the single-thread loop a transfer is marked broadcast only once its
/// request was taken; it is confirmed only when its stored digests hold its
/// id; it is failed only when its digests are stored and lack it, or its tick
/// is not stored and it is more than `LOOP_TOO_OLD_TICKS` behind; otherwise
/// it stays pending while the tick or its data is asked for.
pub proof fn single_loop_settles_only_on_evidence(latest_tick: u32, tx_tick: u32, tick: Option<TickRecord>, found: bool)
    requires
        tx_tick <= latest_tick,
    ensures
        ({
            let a = spec_loop_action(latest_tick, tx_tick, tick);
            &&& a == LoopAction::TooOld <==> (tick is None && latest_tick - tx_tick > LOOP_TOO_OLD_TICKS)
            &&& a == LoopAction::CheckDigests <==> digests_stored(tick)
            &&& spec_loop_status(a, found) == Some(0i64) <==> (digests_stored(tick) && found)
            &&& spec_loop_status(a, found) == Some(1i64) <==> ((tick is None && latest_tick - tx_tick
                > LOOP_TOO_OLD_TICKS) || (digests_stored(tick) && !found))
            &&& spec_loop_status(a, found) is None <==> (!digests_stored(tick) && !(tick is None && latest_tick
                - tx_tick > LOOP_TOO_OLD_TICKS))
        }),
{
}

} // verus!
