//! Spreads a per-identity poll evenly over its interval instead of queuing
//! every identity in one burst: a few identities per pass, round robin, so
//! that each comes up once per interval whatever the wallet size.
use vstd::prelude::*;
use std::time::Duration;
use vstd::arithmetic::div_mod::{lemma_fundamental_div_mod, lemma_fundamental_div_mod_converse};

verus! {

/// What `Duration::as_millis` returns for a duration: its whole milliseconds.
pub uninterp spec fn whole_millis(d: Duration) -> u128;

/// `Duration::as_millis`: the total number of whole milliseconds in `d`.
#[verifier::external_body]
fn millis(d: Duration) -> (m: u128)
    ensures
        m == whole_millis(d),
{
    d.as_millis()
}

/// Round-robin poll schedule over a list of identities.
pub struct Rotation {
    cursor: usize,
    /// Poll time earned but not yet spent, in identity-milliseconds: one
    /// identity is due per `interval` of it.
    credit_ms: u128,
    /// Whether the first list has been seen: it is polled in full right away.
    primed: bool,
}

/// The schedule's state: next position, unspent credit, whether primed.
pub struct RotationState {
    pub cursor: nat,
    pub credit: nat,
    pub primed: bool,
}

impl View for Rotation {
    type V = RotationState;

    closed spec fn view(&self) -> RotationState {
        RotationState { cursor: self.cursor as nat, credit: self.credit_ms as nat, primed: self.primed }
    }
}

/// The interval in milliseconds, at least one.
pub open spec fn interval_of(interval_ms: nat) -> nat {
    if interval_ms == 0 {
        1
    } else {
        interval_ms
    }
}

/// The credit a pass starts from: a full round on the first list.
pub open spec fn opening_credit(s: RotationState, n: nat, interval_ms: nat) -> nat {
    if s.primed {
        s.credit
    } else {
        n * interval_of(interval_ms)
    }
}

/// The credit after adding this pass's share, capped at one full round.
pub open spec fn capped_credit(s: RotationState, n: nat, interval_ms: nat, elapsed_ms: nat) -> nat {
    let earned = opening_credit(s, n, interval_ms) + n * elapsed_ms;
    let cap = n * interval_of(interval_ms);
    if earned <= cap {
        earned
    } else {
        cap
    }
}

/// How many identities a pass over a non-empty list of `n` hands out.
pub open spec fn due_count(s: RotationState, n: nat, interval_ms: nat, elapsed_ms: nat) -> nat {
    capped_credit(s, n, interval_ms, elapsed_ms) / interval_of(interval_ms)
}

/// The position in the list at which a pass starts.
pub open spec fn start_of(s: RotationState, n: nat) -> nat {
    s.cursor % n
}

/// The state after a pass over a list of `n` identities.
pub open spec fn after_take(s: RotationState, n: nat, interval_ms: nat, elapsed_ms: nat) -> RotationState {
    if n == 0 {
        RotationState { cursor: 0, credit: 0, primed: s.primed }
    } else {
        let due = due_count(s, n, interval_ms, elapsed_ms);
        RotationState {
            cursor: if due == 0 {
                s.cursor
            } else {
                ((start_of(s, n) + due - 1) % (n as int) + 1) as nat
            },
            credit: capped_credit(s, n, interval_ms, elapsed_ms) % interval_of(interval_ms),
            primed: true,
        }
    }
}

/// A pass can be computed without overflowing the credit counter.
pub open spec fn take_fits(s: RotationState, n: nat, interval_ms: nat, elapsed_ms: nat) -> bool {
    n == 0 || (n * interval_of(interval_ms) <= u128::MAX && opening_credit(s, n, interval_ms) + n
        * elapsed_ms <= u128::MAX)
}

proof fn lemma_mod_succ(a: int, n: int)
    requires
        n > 0,
        a >= 0,
    ensures
        (a + 1) % n == if a % n == n - 1 {
            0
        } else {
            a % n + 1
        },
{
    lemma_fundamental_div_mod(a, n);
    let q = a / n;
    let r = a % n;
    assert(a == n * q + r);
    if r == n - 1 {
        assert(a + 1 == (q + 1) * n + 0) by (nonlinear_arith)
            requires
                a == n * q + r,
                r == n - 1,
        ;
        lemma_fundamental_div_mod_converse(a + 1, n, q + 1, 0);
    } else {
        assert(a + 1 == q * n + (r + 1)) by (nonlinear_arith)
            requires
                a == n * q + r,
        ;
        lemma_fundamental_div_mod_converse(a + 1, n, q, r + 1);
    }
}

proof fn lemma_div_le(a: nat, b: nat, d: nat)
    requires
        d > 0,
        a <= b * d,
    ensures
        a / d <= b,
{
    lemma_fundamental_div_mod(a as int, d as int);
    let q = a / d;
    let r = a % d;
    if q > b {
        assert(false) by (nonlinear_arith)
            requires
                q >= b + 1,
                d > 0,
                r >= 0,
                a == d * q + r,
                a <= b * d,
        ;
    }
}


/// The sum of a sequence of durations in milliseconds.
pub open spec fn total_ms(es: Seq<nat>) -> nat
    decreases es.len(),
{
    if es.len() == 0 {
        0
    } else {
        total_ms(es.drop_last()) + es.last()
    }
}

/// The state after passes over the same list, one per elapsed time in `es`.
pub open spec fn after_passes(s: RotationState, n: nat, interval_ms: nat, es: Seq<nat>) -> RotationState
    decreases es.len(),
{
    if es.len() == 0 {
        s
    } else {
        after_take(after_passes(s, n, interval_ms, es.drop_last()), n, interval_ms, es.last())
    }
}

/// How many identities those passes hand out in all.
pub open spec fn handed_out(s: RotationState, n: nat, interval_ms: nat, es: Seq<nat>) -> nat
    decreases es.len(),
{
    if es.len() == 0 {
        0
    } else {
        handed_out(s, n, interval_ms, es.drop_last()) + due_count(
            after_passes(s, n, interval_ms, es.drop_last()),
            n,
            interval_ms,
            es.last(),
        )
    }
}

/// No pass of the sequence hits the one-round cap.
pub open spec fn never_capped(s: RotationState, n: nat, interval_ms: nat, es: Seq<nat>) -> bool
    decreases es.len(),
{
    if es.len() == 0 {
        true
    } else {
        let before = after_passes(s, n, interval_ms, es.drop_last());
        &&& never_capped(s, n, interval_ms, es.drop_last())
        &&& opening_credit(before, n, interval_ms) + n * es.last() <= n * interval_of(interval_ms)
    }
}

/// Consecutive passes continue the round robin: each starts where the
/// previous one stopped.
pub proof fn passes_continue_the_round(s: RotationState, n: nat, interval_ms: nat, elapsed_ms: nat)
    requires
        n > 0,
    ensures
        start_of(after_take(s, n, interval_ms, elapsed_ms), n) == (start_of(s, n) + due_count(
            s,
            n,
            interval_ms,
            elapsed_ms,
        )) % n,
{
    let due = due_count(s, n, interval_ms, elapsed_ms);
    let st = start_of(s, n);
    if due == 0 {
        vstd::arithmetic::div_mod::lemma_small_mod(st, n);
    } else {
        lemma_mod_succ(st + due - 1, n as int);
        let r = (st + due - 1) % (n as int);
        if r == n - 1 {
            vstd::arithmetic::div_mod::lemma_mod_self_0(n as int);
        } else {
            vstd::arithmetic::div_mod::lemma_small_mod((r + 1) as nat, n as nat);
        }
    }
}

/// The positions in the list that passes hand out, in call order.
pub open spec fn handed_positions(s: RotationState, n: nat, interval_ms: nat, es: Seq<nat>) -> Seq<int>
    decreases es.len(),
{
    if es.len() == 0 {
        Seq::empty()
    } else {
        let before = after_passes(s, n, interval_ms, es.drop_last());
        handed_positions(s, n, interval_ms, es.drop_last()) + Seq::new(
            due_count(before, n, interval_ms, es.last()),
            |j: int| (start_of(before, n) + j) % (n as int),
        )
    }
}

/// `((a % n) + d) % n == (a + d) % n`.
proof fn lemma_mod_then_add(a: int, d: int, n: int)
    requires
        n > 0,
    ensures
        ((a % n) + d) % n == (a + d) % n,
{
    vstd::arithmetic::div_mod::lemma_add_mod_noop_right(d, a, n);
}

/// The passes hand out the list as one cycle: taken together, in call
/// order, they give the positions `start, start + 1, ...` (mod `n`) from where
/// the first of them started, and the next pass starts right after.
pub proof fn passes_hand_out_the_cycle(s: RotationState, n: nat, interval_ms: nat, es: Seq<nat>)
    requires
        n > 0,
    ensures
        handed_positions(s, n, interval_ms, es).len() == handed_out(s, n, interval_ms, es),
        forall|t: int|
            0 <= t < handed_positions(s, n, interval_ms, es).len() ==> #[trigger] handed_positions(
                s,
                n,
                interval_ms,
                es,
            )[t] == (start_of(s, n) + t) % (n as int),
        start_of(after_passes(s, n, interval_ms, es), n) == (start_of(s, n) as int + handed_out(s, n, interval_ms, es)
            as int) % (n as int),
    decreases es.len(),
{
    if es.len() == 0 {
        vstd::arithmetic::div_mod::lemma_small_mod(start_of(s, n), n);
    } else {
        let rest = es.drop_last();
        passes_hand_out_the_cycle(s, n, interval_ms, rest);
        let before = after_passes(s, n, interval_ms, rest);
        let h = handed_out(s, n, interval_ms, rest);
        let due = due_count(before, n, interval_ms, es.last());
        let prev = handed_positions(s, n, interval_ms, rest);
        passes_continue_the_round(before, n, interval_ms, es.last());
        lemma_mod_then_add((start_of(s, n) + h) as int, due as int, n as int);
        assert forall|t: int|
            0 <= t < handed_positions(s, n, interval_ms, es).len() implies #[trigger] handed_positions(
                s,
                n,
                interval_ms,
                es,
            )[t] == (start_of(s, n) + t) % (n as int) by {
            if t >= prev.len() {
                lemma_mod_then_add((start_of(s, n) + h) as int, t - h, n as int);
            }
        }
    }
}

proof fn lemma_mul_div_cancel(n: nat, d: nat)
    requires
        d > 0,
    ensures
        (n * d) / d == n,
        (n * d) % d == 0,
{
    lemma_fundamental_div_mod_converse((n * d) as int, d as int, n as int, 0);
}

/// The first pass over a non-empty list hands out all of it.
pub proof fn first_pass_covers_the_list(s: RotationState, n: nat, interval_ms: nat, elapsed_ms: nat)
    requires
        n > 0,
        !s.primed,
    ensures
        due_count(s, n, interval_ms, elapsed_ms) == n,
        after_take(s, n, interval_ms, elapsed_ms).credit == 0,
{
    lemma_mul_div_cancel(n, interval_of(interval_ms));
}

/// A pass after a stall hands out one full round at most, and leaves no
/// credit behind: the stall is not paid back later.
pub proof fn stall_is_capped_to_one_round(s: RotationState, n: nat, interval_ms: nat, elapsed_ms: nat)
    requires
        n > 0,
        opening_credit(s, n, interval_ms) + n * elapsed_ms >= n * interval_of(interval_ms),
    ensures
        due_count(s, n, interval_ms, elapsed_ms) == n,
        after_take(s, n, interval_ms, elapsed_ms).credit == 0,
{
    lemma_mul_div_cancel(n, interval_of(interval_ms));
}

/// Over passes that never hit the cap, a primed schedule hands out exactly
/// the whole intervals of credit earned: `(credit + n * total) / interval`
/// identities, keeping the remainder as credit.
pub proof fn passes_hand_out_earned_credit(s: RotationState, n: nat, interval_ms: nat, es: Seq<nat>)
    requires
        n > 0,
        s.primed,
        s.credit < interval_of(interval_ms),
        never_capped(s, n, interval_ms, es),
    ensures
        handed_out(s, n, interval_ms, es) == (s.credit + n * total_ms(es)) / interval_of(interval_ms),
        after_passes(s, n, interval_ms, es).credit == (s.credit + n * total_ms(es)) % interval_of(
            interval_ms,
        ),
        es.len() > 0 ==> after_passes(s, n, interval_ms, es).primed,
    decreases es.len(),
{
    let d = interval_of(interval_ms);
    if es.len() == 0 {
        lemma_fundamental_div_mod_converse(s.credit as int, d as int, 0, s.credit as int);
        assert(total_ms(es) == 0);
        assert(n * total_ms(es) == 0) by (nonlinear_arith)
            requires
                total_ms(es) == 0,
        ;
        assert(s.credit + n * total_ms(es) == s.credit);
    } else {
        let prev = es.drop_last();
        passes_hand_out_earned_credit(s, n, interval_ms, prev);
        let before = after_passes(s, n, interval_ms, prev);
        let c = s.credit + n * total_ms(prev);
        let q = c / d;
        let r = c % d;
        lemma_fundamental_div_mod(c as int, d as int);
        let e = es.last();
        assert(before.primed || prev.len() == 0);
        let earned = before.credit + n * e;
        let q2 = earned / d;
        let r2 = earned % d;
        lemma_fundamental_div_mod(earned as int, d as int);
        assert(c + n * e == (q + q2) * d + r2) by (nonlinear_arith)
            requires
                c == d * q + r,
                before.credit == r,
                earned == before.credit + n * e,
                earned == d * q2 + r2,
        ;
        assert(n * total_ms(es) == n * total_ms(prev) + n * e) by (nonlinear_arith)
            requires
                total_ms(es) == total_ms(prev) + e,
        ;
        lemma_fundamental_div_mod_converse((c + n * e) as int, d as int, (q + q2) as int, r2 as int);
        assert(opening_credit(before, n, interval_ms) == before.credit);
        assert(capped_credit(before, n, interval_ms, e) == earned);
        assert(due_count(before, n, interval_ms, e) == q2);
        assert(handed_out(s, n, interval_ms, es) == q + q2);
        assert(after_passes(s, n, interval_ms, es) == after_take(before, n, interval_ms, e));
        assert(after_passes(s, n, interval_ms, es).credit == r2);
        assert(s.credit + n * total_ms(es) == c + n * e);
    }
}

/// Every identity once per interval: passes of a primed schedule whose
/// elapsed times add up to one interval, none hitting the cap, hand out
/// exactly as many identities as the list holds.
pub proof fn every_identity_once_per_interval(s: RotationState, n: nat, interval_ms: nat, es: Seq<nat>)
    requires
        n > 0,
        s.primed,
        s.credit < interval_of(interval_ms),
        total_ms(es) == interval_of(interval_ms),
        never_capped(s, n, interval_ms, es),
    ensures
        handed_out(s, n, interval_ms, es) == n,
{
    let d = interval_of(interval_ms);
    passes_hand_out_earned_credit(s, n, interval_ms, es);
    assert(s.credit + n * d == n * d + s.credit);
    lemma_fundamental_div_mod_converse((s.credit + n * d) as int, d as int, n as int, s.credit as int);
}

impl Rotation {
    /// A schedule that has not seen a list yet.
    pub fn new() -> (r: Self)
        ensures
            r@ == (RotationState { cursor: 0, credit: 0, primed: false }),
    {
        Rotation { cursor: 0, credit_ms: 0, primed: false }
    }

    /// Whether a pass over `n` identities fits the schedule's counters.
    pub open spec fn fits(&self, n: nat, interval: Duration, elapsed: Duration) -> bool {
        take_fits(self@, n, whole_millis(interval) as nat, whole_millis(elapsed) as nat)
    }

    /// The identities due this pass: enough that every one of `list` comes up
    /// once per `interval`, given `elapsed` since the last pass. The first
    /// pass over a list hands out all of it; a stall never owes more than one
    /// full round; an empty list resets the schedule.
    pub fn take(&mut self, list: &[String], interval: Duration, elapsed: Duration) -> (out: Vec<String>)
        requires
            old(self).fits(list@.len(), interval, elapsed),
        ensures
            final(self)@ == after_take(
                old(self)@,
                list@.len(),
                whole_millis(interval) as nat,
                whole_millis(elapsed) as nat,
            ),
            list@.len() == 0 ==> out@.len() == 0,
            list@.len() > 0 ==> out@.len() == due_count(
                old(self)@,
                list@.len(),
                whole_millis(interval) as nat,
                whole_millis(elapsed) as nat,
            ),
            list@.len() > 0 ==> forall|j: int|
                0 <= j < out@.len() ==> #[trigger] out@[j] == list@[(start_of(old(self)@, list@.len())
                    + j) % (list@.len() as int)],
            out@.len() <= list@.len(),
            list@.len() > 0 ==> final(self)@.credit < interval_of(whole_millis(interval) as nat),
    {
        let interval_ms = millis(interval);
        let elapsed_ms = millis(elapsed);
        self.take_millis(list, interval_ms, elapsed_ms)
    }

    /// The same pass with the interval and the time elapsed given in whole
    /// milliseconds.
    pub fn take_millis(&mut self, list: &[String], raw_interval: u128, elapsed_ms: u128) -> (out: Vec<String>)
        requires
            take_fits(old(self)@, list@.len(), raw_interval as nat, elapsed_ms as nat),
        ensures
            final(self)@ == after_take(old(self)@, list@.len(), raw_interval as nat, elapsed_ms as nat),
            list@.len() == 0 ==> out@.len() == 0,
            list@.len() > 0 ==> out@.len() == due_count(old(self)@, list@.len(), raw_interval as nat, elapsed_ms as nat),
            list@.len() > 0 ==> forall|j: int|
                0 <= j < out@.len() ==> #[trigger] out@[j] == list@[(start_of(old(self)@, list@.len())
                    + j) % (list@.len() as int)],
            out@.len() <= list@.len(),
            list@.len() > 0 ==> final(self)@.credit < interval_of(raw_interval as nat),
    {
        let n = list.len();
        if n == 0 {
            self.cursor = 0;
            self.credit_ms = 0;
            return Vec::new();
        }
        let ghost s0 = self@;
        let ghost iv = raw_interval as nat;
        let ghost el = elapsed_ms as nat;
        let interval_ms: u128 = if raw_interval == 0 { 1 } else { raw_interval };
        let nn = n as u128;
        assert(nn * interval_ms <= u128::MAX);
        let round: u128 = nn * interval_ms;
        if !self.primed {
            self.primed = true;
            self.credit_ms = round;
        }
        assert(self.credit_ms as nat == opening_credit(s0, n as nat, iv));
        assert(self.credit_ms + nn * elapsed_ms <= u128::MAX);
        let earned: u128 = self.credit_ms + nn * elapsed_ms;
        self.credit_ms = if earned <= round { earned } else { round };
        let due_wide: u128 = self.credit_ms / interval_ms;
        proof {
            lemma_div_le(self.credit_ms as nat, n as nat, interval_ms as nat);
        }
        self.credit_ms = self.credit_ms % interval_ms;
        let due: usize = due_wide as usize;
        let ghost start = start_of(s0, n as nat);
        let ghost credit_after = self.credit_ms;
        let mut out: Vec<String> = Vec::new();
        let mut k: usize = 0;
        while k < due
            invariant
                n == list@.len(),
                n > 0,
                due <= n,
                k <= due,
                start == s0.cursor % (n as nat),
                out@.len() == k,
                forall|j: int| 0 <= j < k ==> #[trigger] out@[j] == list@[(start + j) % (n as int)],
                k == 0 ==> self.cursor == s0.cursor,
                k > 0 ==> self.cursor == (start + k - 1) % (n as int) + 1,
                self.primed,
                self.credit_ms == credit_after,
            decreases due - k,
        {
            proof {
                if k > 0 {
                    lemma_mod_succ(start + k - 1, n as int);
                    let r = (start + k - 1) % (n as int);
                    if r == n - 1 {
                        vstd::arithmetic::div_mod::lemma_mod_self_0(n as int);
                    } else {
                        vstd::arithmetic::div_mod::lemma_small_mod((r + 1) as nat, n as nat);
                    }
                } else {
                    vstd::arithmetic::div_mod::lemma_small_mod(start as nat, n as nat);
                }
            }
            self.cursor = self.cursor % n;
            assert(self.cursor == (start + k) % (n as int));
            out.push(list[self.cursor].clone());
            self.cursor = self.cursor + 1;
            k = k + 1;
        }
        out
    }

    /// Whether a pass over `n` identities every `raw_interval` milliseconds,
    /// `elapsed_ms` after the last, fits the schedule's counters.
    pub fn fits_millis(&self, n: usize, raw_interval: u128, elapsed_ms: u128) -> (b: bool)
        ensures
            b == take_fits(self@, n as nat, raw_interval as nat, elapsed_ms as nat),
    {
        if n == 0 {
            return true;
        }
        let count = n as u128;
        let interval_ms: u128 = if raw_interval == 0 { 1 } else { raw_interval };
        match count.checked_mul(interval_ms) {
            None => false,
            Some(round) => {
                let opening = if self.primed { self.credit_ms } else { round };
                match count.checked_mul(elapsed_ms) {
                    None => false,
                    Some(share) => opening.checked_add(share).is_some(),
                }
            },
        }
    }

    /// A pass that first checks that the schedule's counters can absorb it:
    /// `None`, with the schedule untouched, when they cannot.
    pub fn take_checked(&mut self, list: &[String], interval: Duration, elapsed: Duration) -> (out:
        Option<Vec<String>>)
        ensures
            old(self).fits(list@.len(), interval, elapsed) ==> out is Some && final(self)@
                == after_take(
                old(self)@,
                list@.len(),
                whole_millis(interval) as nat,
                whole_millis(elapsed) as nat,
            ),
            !old(self).fits(list@.len(), interval, elapsed) ==> out is None && final(self)@ == old(
                self,
            )@,
    {
        let n = list.len() as u128;
        if n == 0 {
            return Some(self.take(list, interval, elapsed));
        }
        let raw_interval = millis(interval);
        let interval_ms: u128 = if raw_interval == 0 { 1 } else { raw_interval };
        let elapsed_ms = millis(elapsed);
        let round = match n.checked_mul(interval_ms) {
            Some(r) => r,
            None => return None,
        };
        let opening = if self.primed { self.credit_ms } else { round };
        let share = match n.checked_mul(elapsed_ms) {
            Some(s) => s,
            None => return None,
        };
        match opening.checked_add(share) {
            Some(_) => Some(self.take(list, interval, elapsed)),
            None => None,
        }
    }
}

} // verus!
