//! The RANDOM contract's provider slots and collateral tiers.
use vstd::prelude::*;

verus! {

/// Ticks between two consecutive steps of a provider stream.
pub const STREAM_TICKS: u32 = 3;

/// Number of collateral tiers: 1, 10, 100 ... 1 000 000 000 QU.
pub const NUM_TIERS: u32 = 10;

/// Ten to the power `e`.
pub open spec fn pow10(e: nat) -> nat
    decreases e,
{
    if e == 0 {
        1
    } else {
        10 * pow10((e - 1) as nat)
    }
}

/// The collateral in QU of tier index `tier`; 0 for an index past the last tier.
pub open spec fn spec_tier_amount(tier: u32) -> u64 {
    if tier < NUM_TIERS {
        pow10(tier as nat) as u64
    } else {
        0
    }
}

/// Whether `amount` is the collateral of some tier.
pub open spec fn spec_is_tier(amount: u64) -> bool {
    exists|t: u32| t < NUM_TIERS && spec_tier_amount(t) == amount
}

proof fn lemma_pow10_bound(e: nat)
    requires
        e <= 9,
    ensures
        1 <= pow10(e) <= 1_000_000_000,
        e < 9 ==> pow10(e) <= 100_000_000,
{
    reveal_with_fuel(pow10, 10);
    lemma_pow10_positive(e);
    if e < 9 {
        lemma_pow10_mono(e, 8);
    } else {
        lemma_pow10_mono(e, 9);
    }
}

proof fn lemma_pow10_mono(a: nat, b: nat)
    requires
        a <= b,
    ensures
        pow10(a) <= pow10(b),
    decreases b,
{
    if a < b {
        lemma_pow10_strict_mono(a, b);
    }
}

proof fn lemma_pow10_strict_mono(a: nat, b: nat)
    requires
        a < b,
    ensures
        pow10(a) < pow10(b),
    decreases b,
{
    lemma_pow10_positive(a);
    if b > a + 1 {
        lemma_pow10_strict_mono(a, (b - 1) as nat);
    }
}

proof fn lemma_pow10_positive(e: nat)
    ensures
        pow10(e) >= 1,
    decreases e,
{
    if e > 0 {
        lemma_pow10_positive((e - 1) as nat);
    }
}

/// The collateral in QU of a tier index (0 past the last tier).
pub fn tier_amount_of(tier: u32) -> (amount: u64)
    ensures
        amount == spec_tier_amount(tier),
{
    if tier >= NUM_TIERS {
        return 0;
    }
    let mut amount: u64 = 1;
    let mut i: u32 = 0;
    while i < tier
        invariant
            i <= tier < NUM_TIERS,
            amount == pow10(i as nat),
        decreases tier - i,
    {
        proof {
            lemma_pow10_bound(i as nat);
        }
        amount = amount * 10;
        i = i + 1;
    }
    amount
}

/// The tier index whose collateral is `amount`, if there is one.
pub fn tier_index(amount: u64) -> (index: Option<u32>)
    ensures
        match index {
            Some(t) => t < NUM_TIERS && spec_tier_amount(t) == amount,
            None => !spec_is_tier(amount),
        },
{
    let mut t: u32 = 0;
    while t < NUM_TIERS
        invariant
            t <= NUM_TIERS,
            forall|u: u32| u < t ==> spec_tier_amount(u) != amount,
        decreases NUM_TIERS - t,
    {
        if tier_amount_of(t) == amount {
            return Some(t);
        }
        t = t + 1;
    }
    None
}

/// Whether `amount` is one of the collateral tiers (1, 10, 100 ... 1e9 QU).
pub fn is_tier(amount: u64) -> (b: bool)
    ensures
        b == spec_is_tier(amount),
{
    tier_index(amount).is_some()
}

/// A provider slot as the contract's `GetProviderStatus` reports it.
#[derive(Clone, Copy, Debug, PartialEq, Eq)]
pub struct ProviderSlot {
    pub stream: u32,
    /// Tier index: the slot locks `10^tier` QU.
    pub tier: u32,
    pub locked: u64,
    pub contributed: bool,
    /// The last tick at which the contract accepted a step for this slot.
    pub last_update_tick: u32,
}

impl ProviderSlot {
    pub open spec fn amount(self) -> u64 {
        spec_tier_amount(self.tier)
    }

    /// The collateral of this slot's tier, in QU.
    pub fn tier_amount(&self) -> (amount: u64)
        ensures
            amount == self.amount(),
    {
        tier_amount_of(self.tier)
    }
}

} // verus!
