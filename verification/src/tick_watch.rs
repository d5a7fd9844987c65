//! What the peer loops decide from the latest tick they read each pass: when
//! balances are asked for and old entity reports deleted, and, in the
//! single-thread peer loop, when all balances are refreshed and peers dropped.
use vstd::prelude::*;
use crate::rotation::{after_take, due_count, start_of, take_fits, Rotation, RotationState};

verus! {

/// Entity reports and asset records older than this many ticks are deleted.
pub const OLD_ENTITIES_DELETE_TICK: u32 = 100;

/// The balance updater's state: the latest tick it acted on, and the tick at
/// which it last deleted old records.
pub struct BalanceLoop {
    latest_tick: u32,
    last_deleted_tick: u32,
}

impl View for BalanceLoop {
    type V = (u32, u32);

    closed spec fn view(&self) -> (u32, u32) {
        (self.latest_tick, self.last_deleted_tick)
    }
}

/// What one balance pass does.
#[derive(Debug, Clone, Copy, PartialEq, Eq, Structural)]
pub struct BalancePass {
    /// Delete the entity reports and asset records from before this tick.
    pub delete_before: Option<u32>,
}

/// The pass taken when the latest tick reads `observed`: none until the
/// network has moved past the tick acted on. A pass deletes old records when
/// more than `OLD_ENTITIES_DELETE_TICK` ticks went by since the last
/// deletion, counting to the tick acted on before this pass.
pub open spec fn spec_balance_pass(s: (u32, u32), observed: u32) -> (Option<BalancePass>, (u32, u32)) {
    let (latest, last_deleted) = s;
    if observed <= latest {
        (None, s)
    } else if latest - last_deleted > OLD_ENTITIES_DELETE_TICK {
        (Some(BalancePass { delete_before: Some((latest - OLD_ENTITIES_DELETE_TICK) as u32) }), (observed, latest))
    } else {
        (Some(BalancePass { delete_before: None }), (observed, last_deleted))
    }
}

impl BalanceLoop {
    #[verifier::type_invariant]
    closed spec fn deleted_not_ahead(&self) -> bool {
        self.last_deleted_tick <= self.latest_tick
    }

    pub fn new() -> (b: Self)
        ensures
            b@ == (0u32, 0u32),
    {
        BalanceLoop { latest_tick: 0, last_deleted_tick: 0 }
    }

    pub fn pass(&mut self, observed: u32) -> (p: Option<BalancePass>)
        ensures
            (p, final(self)@) == spec_balance_pass(old(self)@, observed),
    {
        proof {
            use_type_invariant(&*self);
        }
        let latest = self.latest_tick;
        let last_deleted = self.last_deleted_tick;
        if observed <= latest {
            None
        } else if latest - last_deleted > OLD_ENTITIES_DELETE_TICK {
            *self = BalanceLoop { latest_tick: observed, last_deleted_tick: latest };
            Some(BalancePass { delete_before: Some(latest - OLD_ENTITIES_DELETE_TICK) })
        } else {
            *self = BalanceLoop { latest_tick: observed, last_deleted_tick: last_deleted };
            Some(BalancePass { delete_before: None })
        }
    }
}

/// Each identity's balance is asked for once per this many milliseconds.
pub const BALANCE_INTERVAL_MS: u128 = 10_000;
/// Each identity's possessed assets are asked for once per this many
/// milliseconds: they change rarely.
pub const HOLDINGS_INTERVAL_MS: u128 = 60_000;

/// The identities a rotation pass hands out over `list`: `due_count` of them,
/// round robin from the rotation's position; none from an empty list.
pub open spec fn due_ids(s: RotationState, list: Seq<String>, interval_ms: nat, elapsed_ms: nat) -> Seq<String> {
    if list.len() == 0 {
        Seq::empty()
    } else {
        Seq::new(
            due_count(s, list.len(), interval_ms, elapsed_ms),
            |j: int| list[(start_of(s, list.len()) + j) % (list.len() as int)],
        )
    }
}

/// What a balance round asks for: the pass on the stored records, the
/// identities whose balance is asked for, and those whose possessed assets
/// are.
pub struct BalanceAsk {
    pub pass: BalancePass,
    pub balances: Vec<String>,
    pub holdings: Vec<String>,
}

/// The balance updater: the ticks it acted on, and the two rotations that
/// spread its balance and holdings requests over their intervals.
pub struct BalanceRound {
    ticks: BalanceLoop,
    balances: Rotation,
    holdings: Rotation,
}

pub struct BalanceRoundState {
    pub ticks: (u32, u32),
    pub balances: RotationState,
    pub holdings: RotationState,
}

impl View for BalanceRound {
    type V = BalanceRoundState;

    closed spec fn view(&self) -> BalanceRoundState {
        BalanceRoundState { ticks: self.ticks@, balances: self.balances@, holdings: self.holdings@ }
    }
}

/// Both rotations can take a pass over `n` identities, `elapsed_ms` after
/// the last requesting round.
pub open spec fn round_fits(s: BalanceRoundState, n: nat, elapsed_ms: nat) -> bool {
    &&& take_fits(s.balances, n, BALANCE_INTERVAL_MS as nat, elapsed_ms)
    &&& take_fits(s.holdings, n, HOLDINGS_INTERVAL_MS as nat, elapsed_ms)
}

impl BalanceRound {
    pub fn new() -> (r: Self)
        ensures
            r@ == (BalanceRoundState {
                ticks: (0u32, 0u32),
                balances: RotationState { cursor: 0, credit: 0, primed: false },
                holdings: RotationState { cursor: 0, credit: 0, primed: false },
            }),
    {
        BalanceRound { ticks: BalanceLoop::new(), balances: Rotation::new(), holdings: Rotation::new() }
    }

    /// Whether a requesting round over `n` identities fits the rotations'
    /// counters.
    pub fn fits(&self, n: usize, elapsed_ms: u128) -> (b: bool)
        ensures
            b == round_fits(self@, n as nat, elapsed_ms as nat),
    {
        self.balances.fits_millis(n, BALANCE_INTERVAL_MS, elapsed_ms) && self.holdings.fits_millis(
            n,
            HOLDINGS_INTERVAL_MS,
            elapsed_ms,
        )
    }

    /// One round when the latest tick reads `observed`, over the stored
    /// identities `ids`, `elapsed_ms` after the last round that asked for
    /// anything. A round with no new tick asks for nothing and leaves both
    /// rotations and the ticks where they were; a round with a new tick takes
    /// the balance pass and a pass of each rotation, balances every
    /// `BALANCE_INTERVAL_MS`, holdings every `HOLDINGS_INTERVAL_MS`.
    pub fn round(&mut self, observed: u32, ids: &[String], elapsed_ms: u128) -> (r: Option<BalanceAsk>)
        requires
            observed > old(self)@.ticks.0 ==> round_fits(old(self)@, ids@.len(), elapsed_ms as nat),
        ensures
            observed <= old(self)@.ticks.0 ==> r is None && final(self)@ == old(self)@,
            observed > old(self)@.ticks.0 ==> (r matches Some(a) && {
                &&& Some(a.pass) == spec_balance_pass(old(self)@.ticks, observed).0
                &&& final(self)@.ticks == spec_balance_pass(old(self)@.ticks, observed).1
                &&& a.balances@ == due_ids(
                    old(self)@.balances,
                    ids@,
                    BALANCE_INTERVAL_MS as nat,
                    elapsed_ms as nat,
                )
                &&& final(self)@.balances == after_take(
                    old(self)@.balances,
                    ids@.len(),
                    BALANCE_INTERVAL_MS as nat,
                    elapsed_ms as nat,
                )
                &&& a.holdings@ == due_ids(
                    old(self)@.holdings,
                    ids@,
                    HOLDINGS_INTERVAL_MS as nat,
                    elapsed_ms as nat,
                )
                &&& final(self)@.holdings == after_take(
                    old(self)@.holdings,
                    ids@.len(),
                    HOLDINGS_INTERVAL_MS as nat,
                    elapsed_ms as nat,
                )
            }),
    {
        let pass = match self.ticks.pass(observed) {
            None => return None,
            Some(p) => p,
        };
        let ghost b0 = self.balances@;
        let ghost h0 = self.holdings@;
        let balances = self.balances.take_millis(ids, BALANCE_INTERVAL_MS, elapsed_ms);
        let holdings = self.holdings.take_millis(ids, HOLDINGS_INTERVAL_MS, elapsed_ms);
        assert(balances@ =~= due_ids(b0, ids@, BALANCE_INTERVAL_MS as nat, elapsed_ms as nat));
        assert(holdings@ =~= due_ids(h0, ids@, HOLDINGS_INTERVAL_MS as nat, elapsed_ms as nat));
        Some(BalanceAsk { pass, balances, holdings })
    }
}

/// Balances are refreshed when the tick moved more than this past the one
/// they were last refreshed at.
pub const TICKS_BEFORE_BALANCE_CHECK: u32 = 15;
/// Past this many tick updates in a row every peer would be dropped.
pub const UPDATES_BEFORE_DROPPING_PEERS: u32 = 60;
/// The tick-update count starts over once it passes this.
pub const UPDATES_BEFORE_RESET: u32 = 25;

/// The single-thread peer loop's state: the tick balances were last
/// refreshed at, and how many passes saw the tick move since the count
/// last started over.
pub struct PeerLoop {
    latest_tick: u32,
    tick_updates: u32,
}

impl View for PeerLoop {
    type V = (u32, u32);

    closed spec fn view(&self) -> (u32, u32) {
        (self.latest_tick, self.tick_updates)
    }
}

/// What one pass of the single-thread peer loop does.
#[derive(Debug, Clone, Copy, PartialEq, Eq, Structural)]
pub struct PeerPass {
    /// Ask for the balance of every stored identity.
    pub refresh_balances: bool,
    /// Drop every peer from the set, whatever the database says of it.
    pub drop_all_peers: bool,
}

pub open spec fn spec_peer_pass(s: (u32, u32), observed: u32) -> (PeerPass, (u32, u32)) {
    let (latest, updates) = s;
    let updates: int = if observed > latest { updates + 1 } else { updates as int };
    let refresh = observed > latest + TICKS_BEFORE_BALANCE_CHECK;
    let latest = if refresh { observed } else { latest };
    (
        PeerPass { refresh_balances: refresh, drop_all_peers: updates > UPDATES_BEFORE_DROPPING_PEERS },
        (latest, if updates > UPDATES_BEFORE_RESET { 0 } else { updates as u32 }),
    )
}

impl PeerLoop {
    #[verifier::type_invariant]
    closed spec fn count_bounded(&self) -> bool {
        self.tick_updates <= UPDATES_BEFORE_RESET
    }

    /// Starts from the tick stored when the loop starts.
    pub fn new(latest_tick: u32) -> (p: Self)
        ensures
            p@ == (latest_tick, 0u32),
    {
        PeerLoop { latest_tick, tick_updates: 0 }
    }

    pub fn pass(&mut self, observed: u32) -> (p: PeerPass)
        ensures
            (p, final(self)@) == spec_peer_pass(old(self)@, observed),
    {
        proof {
            use_type_invariant(&*self);
        }
        let mut updates = self.tick_updates;
        let mut latest = self.latest_tick;
        if observed > latest {
            updates = updates + 1;
        }
        let refresh = (observed as u64) > (latest as u64) + (TICKS_BEFORE_BALANCE_CHECK as u64);
        if refresh {
            latest = observed;
        }
        let drop_all = updates > UPDATES_BEFORE_DROPPING_PEERS;
        let next_updates = if updates > UPDATES_BEFORE_RESET { 0 } else { updates };
        *self = PeerLoop { latest_tick: latest, tick_updates: next_updates };
        PeerPass { refresh_balances: refresh, drop_all_peers: drop_all }
    }
}

/// In the single-thread loop, a peer is dropped when every peer is, or when
/// the database has it and says it is not connected.
pub fn drop_peer(drop_all: bool, connected: Option<&str>) -> (b: bool)
    ensures
        b == (drop_all || match connected {
            Some(c) => c@ != "1"@,
            None => false,
        }),
{
    if drop_all {
        true
    } else {
        match connected {
            Some(c) => !crate::text::same_text(c, "1"),
            None => false,
        }
    }
}

/// A timed request is due when `interval_ms` has passed since it was last
/// made (or it never was).
pub fn due(last_ms: Option<u64>, now_ms: u64, interval_ms: u64) -> (b: bool)
    ensures
        b == match last_ms {
            Some(at) => now_ms >= at + interval_ms,
            None => true,
        },
{
    match last_ms {
        Some(at) => (now_ms as u128) >= (at as u128) + (interval_ms as u128),
        None => true,
    }
}

/// The balance updater takes a pass exactly when the tick moved past the
/// one it acted on, and then acts on the new tick; a deletion is of records
/// more than `OLD_ENTITIES_DELETE_TICK` ticks behind the tick acted on before.
pub proof fn balance_pass_follows_the_tick(s: (u32, u32), observed: u32)
    requires
        s.1 <= s.0,
    ensures
        spec_balance_pass(s, observed).0 is Some <==> observed > s.0,
        observed > s.0 ==> spec_balance_pass(s, observed).1.0 == observed,
        observed > s.0 ==> spec_balance_pass(s, observed).1.1 <= spec_balance_pass(s, observed).1.0,
        match spec_balance_pass(s, observed).0 {
            Some(p) => match p.delete_before {
                Some(t) => t + OLD_ENTITIES_DELETE_TICK == s.0 && s.0 - s.1 > OLD_ENTITIES_DELETE_TICK,
                None => s.0 - s.1 <= OLD_ENTITIES_DELETE_TICK,
            },
            None => spec_balance_pass(s, observed).1 == s,
        },
{
}

/// The single-thread loop never drops every peer at once: the count of tick
/// updates starts over long before it could pass the bound.
pub proof fn peer_loop_never_drops_every_peer(s: (u32, u32), observed: u32)
    requires
        s.1 <= UPDATES_BEFORE_RESET,
    ensures
        !spec_peer_pass(s, observed).0.drop_all_peers,
        spec_peer_pass(s, observed).1.1 <= UPDATES_BEFORE_RESET,
{
}

/// Across passes, deletions are spaced: after a pass that deleted, the next
/// pass deletes again only once the tick it acts on is more than
/// `OLD_ENTITIES_DELETE_TICK` past the one the deletion counted to, and each
/// deletion reaches further than the one before.
pub proof fn deletions_are_spaced(s: (u32, u32), first: u32, second: u32)
    requires
        s.1 <= s.0,
        spec_balance_pass(s, first).0 matches Some(p) && p.delete_before is Some,
    ensures
        ({
            let mid = spec_balance_pass(s, first).1;
            match spec_balance_pass(mid, second).0 {
                Some(q) => match q.delete_before {
                    Some(t) => mid.0 - s.0 > OLD_ENTITIES_DELETE_TICK && t > spec_balance_pass(s, first).0->0.delete_before->0,
                    None => true,
                },
                None => true,
            }
        }),
{
}

} // verus!
