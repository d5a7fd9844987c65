//! Judging a RANDOM session on several peers' `GetProviderStatus` reports.
//!
//! A single peer's word never ends a session: one serving stale state would
//! halt a healthy chain. `needed` peers must agree, and reports of an empty
//! slot must span a full stream period, unless they all come from after the
//! session's own leave.
use vstd::prelude::*;
use crate::random::{ProviderSlot, STREAM_TICKS};

verus! {

/// A report dated further behind the latest tick than this says nothing about
/// the present.
pub const REPORT_MAX_AGE_TICKS: u32 = 60;

/// A session's slot is gone from the contract, on enough peers' word.
#[derive(Debug, PartialEq, Eq)]
pub struct Gone {
    /// The last sent step the reports are late enough to judge.
    pub judged: i64,
    /// The newest report's tick.
    pub newest: u32,
    /// How many peers reported the slot gone.
    pub peers: usize,
}

/// What several peers' reports say about a session.
#[derive(Debug, PartialEq, Eq)]
pub struct Verdict {
    /// The latest tick the contract accepted a step at (at least the value passed in).
    pub last_accepted: u32,
    pub gone: Option<Gone>,
    /// The slot is there but a step's tick is well past without being
    /// accepted: `(that step's tick, peers reporting so)`.
    pub not_accepted: Option<(u32, usize)>,
}

/// The first slot of a report whose tier carries `tier` QU.
pub open spec fn slot_at_tier(slots: Seq<ProviderSlot>, tier: u64) -> Option<ProviderSlot>
    decreases slots.len(),
{
    if slots.len() == 0 {
        None
    } else if slots[0].amount() == tier {
        Some(slots[0])
    } else {
        slot_at_tier(slots.drop_first(), tier)
    }
}

/// The report still shows a slot at the session's tier.
pub open spec fn sees_slot(r: (String, u32, Vec<ProviderSlot>), tier: u64) -> bool {
    slot_at_tier(r.2@, tier) is Some
}

/// The newest date of a report that still shows the slot.
pub open spec fn newest_present(rs: Seq<(String, u32, Vec<ProviderSlot>)>, tier: u64) -> Option<u32>
    decreases rs.len(),
{
    if rs.len() == 0 {
        None
    } else {
        let prev = newest_present(rs.drop_last(), tier);
        let r = rs.last();
        if sees_slot(r, tier) {
            match prev {
                None => Some(r.1),
                Some(p) => Some(if p >= r.1 { p } else { r.1 }),
            }
        } else {
            prev
        }
    }
}

/// `start`, raised to every last-accepted tick reported at or after the
/// session's first tick.
pub open spec fn accepted_tick(
    rs: Seq<(String, u32, Vec<ProviderSlot>)>,
    tier: u64,
    first_tick: u32,
    start: u32,
) -> u32
    decreases rs.len(),
{
    if rs.len() == 0 {
        start
    } else {
        let prev = accepted_tick(rs.drop_last(), tier, first_tick, start);
        match slot_at_tier(rs.last().2@, tier) {
            Some(s) => if s.last_update_tick > prev && s.last_update_tick >= first_tick {
                s.last_update_tick
            } else {
                prev
            },
            None => prev,
        }
    }
}

/// A recent report of no slot, newer than any report that still saw it.
pub open spec fn is_absent(
    r: (String, u32, Vec<ProviderSlot>),
    tier: u64,
    latest: u32,
    present: Option<u32>,
) -> bool {
    &&& r.1 + REPORT_MAX_AGE_TICKS >= latest
    &&& match present {
        None => true,
        Some(p) => r.1 > p,
    }
    &&& !sees_slot(r, tier)
}

/// The peers behind the absent reports.
pub open spec fn absent_peers(
    rs: Seq<(String, u32, Vec<ProviderSlot>)>,
    tier: u64,
    latest: u32,
    present: Option<u32>,
) -> Set<Seq<char>>
    decreases rs.len(),
{
    if rs.len() == 0 {
        Set::empty()
    } else {
        let prev = absent_peers(rs.drop_last(), tier, latest, present);
        if is_absent(rs.last(), tier, latest, present) {
            prev.insert(rs.last().0@)
        } else {
            prev
        }
    }
}

/// The oldest date of an absent report.
pub open spec fn absent_oldest(
    rs: Seq<(String, u32, Vec<ProviderSlot>)>,
    tier: u64,
    latest: u32,
    present: Option<u32>,
) -> Option<u32>
    decreases rs.len(),
{
    if rs.len() == 0 {
        None
    } else {
        let prev = absent_oldest(rs.drop_last(), tier, latest, present);
        let r = rs.last();
        if is_absent(r, tier, latest, present) {
            match prev {
                None => Some(r.1),
                Some(p) => Some(if p <= r.1 { p } else { r.1 }),
            }
        } else {
            prev
        }
    }
}

/// The newest date of an absent report.
pub open spec fn absent_newest(
    rs: Seq<(String, u32, Vec<ProviderSlot>)>,
    tier: u64,
    latest: u32,
    present: Option<u32>,
) -> Option<u32>
    decreases rs.len(),
{
    if rs.len() == 0 {
        None
    } else {
        let prev = absent_newest(rs.drop_last(), tier, latest, present);
        let r = rs.last();
        if is_absent(r, tier, latest, present) {
            match prev {
                None => Some(r.1),
                Some(p) => Some(if p >= r.1 { p } else { r.1 }),
            }
        } else {
            prev
        }
    }
}

/// The tick of step `k` of a session starting at `first_tick`.
pub open spec fn step_tick(first_tick: u32, k: int) -> int {
    first_tick + STREAM_TICKS * k
}

/// The last of the sent steps `0..=through` whose tick, plus the stream
/// period the contract needs to evict, is at or behind `tick`.
pub open spec fn judged_by(first_tick: u32, through: i64, tick: u32) -> Option<i64> {
    if through < 0 || tick < first_tick + STREAM_TICKS {
        None
    } else {
        let m = (tick - first_tick - STREAM_TICKS) / (STREAM_TICKS as int);
        Some(if through <= m { through } else { m as i64 })
    }
}

/// Enough peers report the slot empty, over a full stream period or after the leave.
pub open spec fn is_gone(
    rs: Seq<(String, u32, Vec<ProviderSlot>)>,
    tier: u64,
    first_tick: u32,
    leave_step: i64,
    latest: u32,
    needed: usize,
) -> bool {
    let present = newest_present(rs, tier);
    let oldest = absent_oldest(rs, tier, latest, present).unwrap_or(0);
    let newest = absent_newest(rs, tier, latest, present).unwrap_or(0);
    &&& absent_peers(rs, tier, latest, present).len() >= needed
    &&& (newest >= oldest + STREAM_TICKS || (leave_step >= 0 && oldest >= step_tick(
        first_tick,
        leave_step as int,
    ) + STREAM_TICKS))
}

/// A report well past `due` (two stream periods) that still shows the slot
/// with a last accepted tick before `due`.
pub open spec fn is_stale(r: (String, u32, Vec<ProviderSlot>), tier: u64, due: int) -> bool {
    &&& r.1 >= due + 2 * STREAM_TICKS
    &&& match slot_at_tier(r.2@, tier) {
        Some(s) => s.last_update_tick < due,
        None => false,
    }
}

/// The peers behind the stale reports.
pub open spec fn stale_peers(rs: Seq<(String, u32, Vec<ProviderSlot>)>, tier: u64, due: int) -> Set<
    Seq<char>,
>
    decreases rs.len(),
{
    if rs.len() == 0 {
        Set::empty()
    } else {
        let prev = stale_peers(rs.drop_last(), tier, due);
        if is_stale(rs.last(), tier, due) {
            prev.insert(rs.last().0@)
        } else {
            prev
        }
    }
}

/// What the reports say, as `judge_reports` decides it.
pub open spec fn spec_judge(
    rs: Seq<(String, u32, Vec<ProviderSlot>)>,
    tier: u64,
    first_tick: u32,
    through: i64,
    leave_step: i64,
    last_accepted: u32,
    latest: u32,
    needed: usize,
) -> Verdict {
    let acc = accepted_tick(rs, tier, first_tick, last_accepted);
    let present = newest_present(rs, tier);
    let newest = absent_newest(rs, tier, latest, present).unwrap_or(0);
    if is_gone(rs, tier, first_tick, leave_step, latest, needed) {
        Verdict {
            last_accepted: acc,
            gone: match judged_by(first_tick, through, newest) {
                Some(k) => Some(
                    Gone {
                        judged: k,
                        newest,
                        peers: absent_peers(rs, tier, latest, present).len() as usize,
                    },
                ),
                None => None,
            },
            not_accepted: None,
        }
    } else {
        Verdict {
            last_accepted: acc,
            gone: None,
            not_accepted: match present {
                None => None,
                Some(p) => match judged_by(first_tick, through, p) {
                    None => None,
                    Some(k) => {
                        let due = step_tick(first_tick, k as int);
                        let n = stale_peers(rs, tier, due).len();
                        if acc < due && n >= needed {
                            Some((due as u32, n as usize))
                        } else {
                            None
                        }
                    },
                },
            },
        }
    }
}

proof fn lemma_absent_peers_finite(
    rs: Seq<(String, u32, Vec<ProviderSlot>)>,
    tier: u64,
    latest: u32,
    present: Option<u32>,
)
    ensures
        absent_peers(rs, tier, latest, present).finite(),
        absent_peers(rs, tier, latest, present).len() <= rs.len(),
    decreases rs.len(),
{
    if rs.len() > 0 {
        lemma_absent_peers_finite(rs.drop_last(), tier, latest, present);
    }
}

proof fn lemma_stale_peers_finite(rs: Seq<(String, u32, Vec<ProviderSlot>)>, tier: u64, due: int)
    ensures
        stale_peers(rs, tier, due).finite(),
        stale_peers(rs, tier, due).len() <= rs.len(),
    decreases rs.len(),
{
    if rs.len() > 0 {
        lemma_stale_peers_finite(rs.drop_last(), tier, due);
    }
}

proof fn lemma_absent_peers_members(
    rs: Seq<(String, u32, Vec<ProviderSlot>)>,
    tier: u64,
    latest: u32,
    present: Option<u32>,
    p: Seq<char>,
)
    ensures
        absent_peers(rs, tier, latest, present).contains(p) <==> exists|j: int|
            0 <= j < rs.len() && is_absent(rs[j], tier, latest, present) && #[trigger] rs[j].0@
                == p,
    decreases rs.len(),
{
    if rs.len() > 0 {
        let prev = rs.drop_last();
        lemma_absent_peers_members(prev, tier, latest, present, p);
        if exists|j: int|
            0 <= j < rs.len() && is_absent(rs[j], tier, latest, present) && #[trigger] rs[j].0@
                == p {
            let j = choose|j: int|
                0 <= j < rs.len() && is_absent(rs[j], tier, latest, present) && #[trigger] rs[j].0@
                    == p;
            if j < rs.len() - 1 {
                assert(prev[j] == rs[j]);
            }
        }
        if absent_peers(prev, tier, latest, present).contains(p) {
            let j = choose|j: int|
                0 <= j < prev.len() && is_absent(prev[j], tier, latest, present) && #[trigger] prev[j].0@
                    == p;
            assert(rs[j] == prev[j]);
        }
    }
}

proof fn lemma_stale_peers_members(
    rs: Seq<(String, u32, Vec<ProviderSlot>)>,
    tier: u64,
    due: int,
    p: Seq<char>,
)
    ensures
        stale_peers(rs, tier, due).contains(p) <==> exists|j: int|
            0 <= j < rs.len() && is_stale(rs[j], tier, due) && #[trigger] rs[j].0@ == p,
    decreases rs.len(),
{
    if rs.len() > 0 {
        let prev = rs.drop_last();
        lemma_stale_peers_members(prev, tier, due, p);
        if exists|j: int| 0 <= j < rs.len() && is_stale(rs[j], tier, due) && #[trigger] rs[j].0@ == p {
            let j = choose|j: int|
                0 <= j < rs.len() && is_stale(rs[j], tier, due) && #[trigger] rs[j].0@ == p;
            if j < rs.len() - 1 {
                assert(prev[j] == rs[j]);
            }
        }
        if stale_peers(prev, tier, due).contains(p) {
            let j = choose|j: int|
                0 <= j < prev.len() && is_stale(prev[j], tier, due) && #[trigger] prev[j].0@ == p;
            assert(rs[j] == prev[j]);
        }
    }
}


proof fn lemma_accepted_at_least(
    rs: Seq<(String, u32, Vec<ProviderSlot>)>,
    tier: u64,
    first_tick: u32,
    start: u32,
)
    ensures
        accepted_tick(rs, tier, first_tick, start) >= start,
    decreases rs.len(),
{
    if rs.len() > 0 {
        lemma_accepted_at_least(rs.drop_last(), tier, first_tick, start);
    }
}

proof fn lemma_newest_present_bounds(rs: Seq<(String, u32, Vec<ProviderSlot>)>, tier: u64, j: int)
    requires
        0 <= j < rs.len(),
        sees_slot(rs[j], tier),
    ensures
        newest_present(rs, tier) matches Some(p) && p >= rs[j].1,
    decreases rs.len(),
{
    let prev = rs.drop_last();
    if j < rs.len() - 1 {
        assert(prev[j] == rs[j]);
        lemma_newest_present_bounds(prev, tier, j);
    }
}

proof fn lemma_absent_newest_witness(
    rs: Seq<(String, u32, Vec<ProviderSlot>)>,
    tier: u64,
    latest: u32,
    present: Option<u32>,
)
    ensures
        absent_newest(rs, tier, latest, present) matches Some(x) ==> exists|j: int|
            0 <= j < rs.len() && is_absent(rs[j], tier, latest, present) && #[trigger] rs[j].1 == x,
        absent_newest(rs, tier, latest, present) is None ==> absent_peers(rs, tier, latest, present)
            == Set::<Seq<char>>::empty(),
    decreases rs.len(),
{
    if rs.len() > 0 {
        let prev = rs.drop_last();
        lemma_absent_newest_witness(prev, tier, latest, present);
        if let Some(x) = absent_newest(prev, tier, latest, present) {
            let j = choose|j: int|
                0 <= j < prev.len() && is_absent(prev[j], tier, latest, present) && #[trigger] prev[j].1
                    == x;
            assert(rs[j] == prev[j]);
        }
        assert(rs[rs.len() - 1] == rs.last());
    }
}

proof fn lemma_set_within_one<A>(s: Set<A>, a: A)
    requires
        s.finite(),
        forall|x: A| s.contains(x) ==> x == a,
    ensures
        s.len() <= 1,
{
    let one = Set::<A>::empty().insert(a);
    assert(s.subset_of(one));
    vstd::set_lib::lemma_len_subset(s, one);
}

/// A single peer's word never ends a session: when every report comes from
/// one peer and at least two must agree, the slot is neither judged gone
/// nor a step judged missing.
pub proof fn one_peer_never_ends_a_session(
    rs: Seq<(String, u32, Vec<ProviderSlot>)>,
    tier: u64,
    first_tick: u32,
    through: i64,
    leave_step: i64,
    last_accepted: u32,
    latest: u32,
    needed: usize,
    peer: Seq<char>,
)
    requires
        needed >= 2,
        forall|i: int| 0 <= i < rs.len() ==> #[trigger] rs[i].0@ == peer,
    ensures
        spec_judge(rs, tier, first_tick, through, leave_step, last_accepted, latest, needed).gone is None,
        spec_judge(rs, tier, first_tick, through, leave_step, last_accepted, latest, needed).not_accepted is None,
{
    let present = newest_present(rs, tier);
    let absent = absent_peers(rs, tier, latest, present);
    lemma_absent_peers_finite(rs, tier, latest, present);
    assert forall|x: Seq<char>| absent.contains(x) implies x == peer by {
        lemma_absent_peers_members(rs, tier, latest, present, x);
    }
    lemma_set_within_one(absent, peer);
    if let Some(p) = present {
        if let Some(k) = judged_by(first_tick, through, p) {
            let due = step_tick(first_tick, k as int);
            let stale = stale_peers(rs, tier, due);
            lemma_stale_peers_finite(rs, tier, due);
            assert forall|x: Seq<char>| stale.contains(x) implies x == peer by {
                lemma_stale_peers_members(rs, tier, due, x);
            }
            lemma_set_within_one(stale, peer);
        }
    }
}

/// The verdict's accepted tick is never below the one passed in.
pub proof fn accepted_tick_never_goes_back(
    rs: Seq<(String, u32, Vec<ProviderSlot>)>,
    tier: u64,
    first_tick: u32,
    through: i64,
    leave_step: i64,
    last_accepted: u32,
    latest: u32,
    needed: usize,
)
    ensures
        spec_judge(rs, tier, first_tick, through, leave_step, last_accepted, latest, needed).last_accepted
            >= last_accepted,
{
    lemma_accepted_at_least(rs, tier, first_tick, last_accepted);
}

/// A slot judged gone rests on at least `needed` peers, on a report no older
/// than `REPORT_MAX_AGE_TICKS` behind the latest tick, and on empty reports
/// that span a stream period or come from after the leave; the judged step's
/// tick plus a stream period is at or before that report.
pub proof fn gone_needs_agreeing_recent_reports(
    rs: Seq<(String, u32, Vec<ProviderSlot>)>,
    tier: u64,
    first_tick: u32,
    through: i64,
    leave_step: i64,
    last_accepted: u32,
    latest: u32,
    needed: usize,
)
    requires
        needed >= 1,
        rs.len() <= usize::MAX,
    ensures
        spec_judge(rs, tier, first_tick, through, leave_step, last_accepted, latest, needed).gone matches Some(g) ==> {
            let present = newest_present(rs, tier);
            let oldest = absent_oldest(rs, tier, latest, present).unwrap_or(0);
            &&& g.peers >= needed
            &&& g.newest + REPORT_MAX_AGE_TICKS >= latest
            &&& (g.newest >= oldest + STREAM_TICKS || (leave_step >= 0 && oldest >= step_tick(
                first_tick,
                leave_step as int,
            ) + STREAM_TICKS))
            &&& 0 <= g.judged <= through
            &&& step_tick(first_tick, g.judged as int) + STREAM_TICKS <= g.newest
        },
{
    let present = newest_present(rs, tier);
    lemma_absent_newest_witness(rs, tier, latest, present);
    lemma_absent_peers_finite(rs, tier, latest, present);
    if let Some(x) = absent_newest(rs, tier, latest, present) {
        let j = choose|j: int|
            0 <= j < rs.len() && is_absent(rs[j], tier, latest, present) && #[trigger] rs[j].1 == x;
        assert(x + REPORT_MAX_AGE_TICKS >= latest);
    }
}

/// A report that still shows the slot and is at least as new as every other
/// report outranks all reports of an empty slot: nothing is judged gone.
pub proof fn newest_sighting_outranks_empty_reports(
    rs: Seq<(String, u32, Vec<ProviderSlot>)>,
    tier: u64,
    first_tick: u32,
    through: i64,
    leave_step: i64,
    last_accepted: u32,
    latest: u32,
    needed: usize,
    j: int,
)
    requires
        needed >= 1,
        0 <= j < rs.len(),
        sees_slot(rs[j], tier),
        forall|i: int| 0 <= i < rs.len() ==> #[trigger] rs[i].1 <= rs[j].1,
    ensures
        spec_judge(rs, tier, first_tick, through, leave_step, last_accepted, latest, needed).gone is None,
{
    let present = newest_present(rs, tier);
    lemma_newest_present_bounds(rs, tier, j);
    let absent = absent_peers(rs, tier, latest, present);
    assert forall|x: Seq<char>| !absent.contains(x) by {
        lemma_absent_peers_members(rs, tier, latest, present, x);
        if absent.contains(x) {
            let i = choose|i: int|
                0 <= i < rs.len() && is_absent(rs[i], tier, latest, present) && #[trigger] rs[i].0@
                    == x;
            assert(rs[i].1 <= rs[j].1);
        }
    }
    assert(absent =~= Set::<Seq<char>>::empty());
}

/// Reports dated more than `REPORT_MAX_AGE_TICKS` behind the latest tick
/// never make a slot gone.
pub proof fn stale_reports_do_not_count(
    rs: Seq<(String, u32, Vec<ProviderSlot>)>,
    tier: u64,
    first_tick: u32,
    through: i64,
    leave_step: i64,
    last_accepted: u32,
    latest: u32,
    needed: usize,
)
    requires
        needed >= 1,
        forall|i: int| 0 <= i < rs.len() ==> #[trigger] rs[i].1 + REPORT_MAX_AGE_TICKS < latest,
    ensures
        spec_judge(rs, tier, first_tick, through, leave_step, last_accepted, latest, needed).gone is None,
{
    let present = newest_present(rs, tier);
    let absent = absent_peers(rs, tier, latest, present);
    assert forall|x: Seq<char>| !absent.contains(x) by {
        lemma_absent_peers_members(rs, tier, latest, present, x);
        if absent.contains(x) {
            let i = choose|i: int|
                0 <= i < rs.len() && is_absent(rs[i], tier, latest, present) && #[trigger] rs[i].0@
                    == x;
            assert(rs[i].1 + REPORT_MAX_AGE_TICKS < latest);
        }
    }
    assert(absent =~= Set::<Seq<char>>::empty());
}

/// The first slot at the given tier.
fn find_slot(slots: &Vec<ProviderSlot>, tier: u64) -> (found: Option<ProviderSlot>)
    ensures
        found == slot_at_tier(slots@, tier),
{
    let mut i: usize = 0;
    assert(slots@.subrange(0, slots@.len() as int) =~= slots@);
    while i < slots.len()
        invariant
            i <= slots.len(),
            slot_at_tier(slots@, tier) == slot_at_tier(slots@.subrange(i as int, slots@.len() as int), tier),
        decreases slots.len() - i,
    {
        let ghost rest = slots@.subrange(i as int, slots@.len() as int);
        assert(rest.drop_first() =~= slots@.subrange(i + 1, slots@.len() as int));
        assert(rest[0] == slots@[i as int]);
        if slots[i].tier_amount() == tier {
            return Some(slots[i]);
        }
        i = i + 1;
    }
    assert(slots@.subrange(i as int, slots@.len() as int).len() == 0);
    None
}

/// Whether one of the reports at the given indices comes from `peer`.
fn peer_seen(reports: &[(String, u32, Vec<ProviderSlot>)], seen: &Vec<usize>, peer: &String) -> (b: bool)
    requires
        forall|j: int| 0 <= j < seen@.len() ==> seen@[j] < reports@.len(),
    ensures
        b <==> exists|j: int| 0 <= j < seen@.len() && #[trigger] reports@[seen@[j] as int].0@ == peer@,
{
    let mut j: usize = 0;
    while j < seen.len()
        invariant
            j <= seen@.len(),
            forall|j: int| 0 <= j < seen@.len() ==> seen@[j] < reports@.len(),
            forall|q: int| 0 <= q < j ==> reports@[seen@[q] as int].0@ != peer@,
        decreases seen.len() - j,
    {
        if reports[seen[j]].0 == *peer {
            return true;
        }
        j = j + 1;
    }
    false
}

/// The tick of step `k`, for a step within `judged_by`'s range.
fn exec_judged_by(first_tick: u32, through: i64, tick: u32) -> (r: Option<i64>)
    ensures
        r == judged_by(first_tick, through, tick),
        r matches Some(k) ==> 0 <= k <= through && step_tick(first_tick, k as int) + STREAM_TICKS
            <= tick,
{
    let f = first_tick as u64;
    let t = tick as u64;
    if through < 0 || t < f + 3 {
        None
    } else {
        let m = (t - f - 3) / 3;
        if (through as u64) <= m {
            Some(through)
        } else {
            Some(m as i64)
        }
    }
}

/// Judges a session on the reports of several peers (`(peer, tick the report
/// is dated, slots)`): the accepted tick they show, whether `needed` peers
/// agree that the slot is gone, or that a sent step was not accepted.
pub fn judge_reports(
    reports: &[(String, u32, Vec<ProviderSlot>)],
    tier: u64,
    first_tick: u32,
    through: i64,
    leave_step: i64,
    last_accepted: u32,
    latest: u32,
    needed: usize,
) -> (v: Verdict)
    ensures
        v == spec_judge(
            reports@,
            tier,
            first_tick,
            through,
            leave_step,
            last_accepted,
            latest,
            needed,
        ),
{
    let ghost rs = reports@;
    let n = reports.len();
    // Which reports still see the slot, and the accepted tick they carry.
    let mut acc: u32 = last_accepted;
    let mut present: Option<u32> = None;
    let mut i: usize = 0;
    while i < n
        invariant
            n == rs.len(),
            rs == reports@,
            i <= n,
            acc == accepted_tick(rs.take(i as int), tier, first_tick, last_accepted),
            present == newest_present(rs.take(i as int), tier),
        decreases n - i,
    {
        assert(rs.take(i + 1).drop_last() =~= rs.take(i as int));
        assert(rs.take(i + 1).last() == rs[i as int]);
        let slot = find_slot(&reports[i].2, tier);
        let checked = reports[i].1;
        match slot {
            Some(s) => {
                present = match present {
                    None => Some(checked),
                    Some(p) => Some(if p >= checked { p } else { checked }),
                };
                if s.last_update_tick > acc && s.last_update_tick >= first_tick {
                    acc = s.last_update_tick;
                }
            },
            None => {},
        }
        i = i + 1;
    }
    assert(rs.take(n as int) =~= rs);
    // Recent reports of no slot, newer than any report that still saw it.
    let mut seen: Vec<usize> = Vec::new();
    let mut oldest: Option<u32> = None;
    let mut newest: Option<u32> = None;
    i = 0;
    while i < n
        invariant
            n == rs.len(),
            rs == reports@,
            i <= n,
            present == newest_present(rs, tier),
            oldest == absent_oldest(rs.take(i as int), tier, latest, present),
            newest == absent_newest(rs.take(i as int), tier, latest, present),
            seen@.len() == absent_peers(rs.take(i as int), tier, latest, present).len(),
            forall|j: int| 0 <= j < seen@.len() ==> seen@[j] < i,
            forall|p: Seq<char>|
                absent_peers(rs.take(i as int), tier, latest, present).contains(p) <==> exists|j: int|
                    0 <= j < seen@.len() && #[trigger] rs[seen@[j] as int].0@ == p,
        decreases n - i,
    {
        let ghost prev = rs.take(i as int);
        assert(rs.take(i + 1).drop_last() =~= prev);
        assert(rs.take(i + 1).last() == rs[i as int]);
        proof {
            lemma_absent_peers_finite(prev, tier, latest, present);
        }
        let checked = reports[i].1;
        let fresh = (checked as u64) + (REPORT_MAX_AGE_TICKS as u64) >= latest as u64;
        let newer = match present {
            None => true,
            Some(p) => checked > p,
        };
        let empty = find_slot(&reports[i].2, tier).is_none();
        if fresh && newer && empty {
            oldest = match oldest {
                None => Some(checked),
                Some(o) => Some(if o <= checked { o } else { checked }),
            };
            newest = match newest {
                None => Some(checked),
                Some(o) => Some(if o >= checked { o } else { checked }),
            };
            let known = peer_seen(reports, &seen, &reports[i].0);
            let ghost seen_before = seen@;
            if !known {
                seen.push(i);
            }
            proof {
                let next = rs.take(i + 1);
                assert(absent_peers(next, tier, latest, present) == absent_peers(prev, tier, latest, present).insert(rs[i as int].0@));
                assert forall|p: Seq<char>|
                    absent_peers(next, tier, latest, present).contains(p) <==> exists|j: int|
                        0 <= j < seen@.len() && #[trigger] rs[seen@[j] as int].0@ == p by {
                    if p == rs[i as int].0@ {
                        if !known {
                            assert(rs[seen@[seen@.len() - 1] as int].0@ == p);
                        }
                    } else {
                        if absent_peers(prev, tier, latest, present).contains(p) {
                            let j = choose|j: int|
                                0 <= j < seen_before.len() && #[trigger] rs[seen_before[j] as int].0@ == p;
                            assert(seen@[j] == seen_before[j]);
                        }
                        if exists|j: int| 0 <= j < seen@.len() && #[trigger] rs[seen@[j] as int].0@ == p {
                            let j = choose|j: int| 0 <= j < seen@.len() && #[trigger] rs[seen@[j] as int].0@ == p;
                            if j < seen_before.len() {
                                assert(seen@[j] == seen_before[j]);
                            }
                        }
                    }
                }
            }
        }
        i = i + 1;
    }
    assert(rs.take(n as int) =~= rs);
    let absent_count = seen.len();
    let oldest_tick = match oldest {
        Some(o) => o,
        None => 0,
    };
    let newest_tick = match newest {
        Some(o) => o,
        None => 0,
    };
    let leave_bound = leave_step >= 0 && (oldest_tick as u128) >= (first_tick as u128) + 3 * (
    leave_step as u128) + 3;
    let gone = absent_count >= needed && ((newest_tick as u64) >= (oldest_tick as u64) + 3
        || leave_bound);
    if gone {
        let judged = exec_judged_by(first_tick, through, newest_tick);
        return match judged {
            Some(k) => Verdict {
                last_accepted: acc,
                gone: Some(Gone { judged: k, newest: newest_tick, peers: absent_count }),
                not_accepted: None,
            },
            None => Verdict { last_accepted: acc, gone: None, not_accepted: None },
        };
    }
    let mut not_accepted: Option<(u32, usize)> = None;
    match present {
        Some(p) => {
            match exec_judged_by(first_tick, through, p) {
                Some(k) => {
                    let due: u32 = first_tick + 3 * (k as u32);
                    if acc < due {
                        // Distinct peers whose reports, well past the step's tick,
                        // still show an older accepted tick.
                        let mut stale: Vec<usize> = Vec::new();
                        let mut j: usize = 0;
                        while j < n
                            invariant
                                n == rs.len(),
                                rs == reports@,
                                j <= n,
                                due as int == step_tick(first_tick, k as int),
                                stale@.len() == stale_peers(rs.take(j as int), tier, due as int).len(),
                                forall|q: int| 0 <= q < stale@.len() ==> stale@[q] < j,
                                forall|p: Seq<char>|
                                    stale_peers(rs.take(j as int), tier, due as int).contains(p) <==> exists|q: int|
                                        0 <= q < stale@.len() && #[trigger] rs[stale@[q] as int].0@ == p,
                            decreases n - j,
                        {
                            let ghost prev = rs.take(j as int);
                            assert(rs.take(j + 1).drop_last() =~= prev);
                            assert(rs.take(j + 1).last() == rs[j as int]);
                            proof {
                                lemma_stale_peers_finite(prev, tier, due as int);
                            }
                            let counts = match find_slot(&reports[j].2, tier) {
                                Some(s) => (reports[j].1 as u64) >= (due as u64) + 6
                                    && s.last_update_tick < due,
                                None => false,
                            };
                            if counts {
                                let known = peer_seen(reports, &stale, &reports[j].0);
                                let ghost stale_before = stale@;
                                if !known {
                                    stale.push(j);
                                }
                                proof {
                                    let next = rs.take(j + 1);
                                    assert(stale_peers(next, tier, due as int) == stale_peers(prev, tier, due as int).insert(rs[j as int].0@));
                                    assert forall|p: Seq<char>|
                                        stale_peers(next, tier, due as int).contains(p) <==> exists|q: int|
                                            0 <= q < stale@.len() && #[trigger] rs[stale@[q] as int].0@ == p by {
                                        if p == rs[j as int].0@ {
                                            if !known {
                                                assert(rs[stale@[stale@.len() - 1] as int].0@ == p);
                                            }
                                        } else {
                                            if stale_peers(prev, tier, due as int).contains(p) {
                                                let q = choose|q: int|
                                                    0 <= q < stale_before.len() && #[trigger] rs[stale_before[q] as int].0@ == p;
                                                assert(stale@[q] == stale_before[q]);
                                            }
                                            if exists|q: int| 0 <= q < stale@.len() && #[trigger] rs[stale@[q] as int].0@ == p {
                                                let q = choose|q: int| 0 <= q < stale@.len() && #[trigger] rs[stale@[q] as int].0@ == p;
                                                if q < stale_before.len() {
                                                    assert(stale@[q] == stale_before[q]);
                                                }
                                            }
                                        }
                                    }
                                }
                            }
                            j = j + 1;
                        }
                        assert(rs.take(n as int) =~= rs);
                        if stale.len() >= needed {
                            not_accepted = Some((due, stale.len()));
                        }
                    }
                },
                None => {},
            }
        },
        None => {},
    }
    Verdict { last_accepted: acc, gone: None, not_accepted }
}

} // verus!
