//! Pool, fee and payouts, in integers: every amount is rounded down to a whole
//! unit, and what the rounding leaves stays in the escrow.

use crate::allocation::{lemma_total_bounds, total, TOTAL_REWARD_PERCENT};
use vstd::prelude::*;

verus! {

/// Every entry fee that the contest has collected: `entry_fee × num_entries`.
pub open spec fn pool_amount(entry_fee: u64, num_entries: u32) -> int {
    entry_fee * num_entries
}

/// The protocol's cut of the pool: `fee_percent` hundredths of it, rounded down.
pub open spec fn fee_amount(fee_percent: u8, pool: int) -> int {
    (fee_percent * pool) / 100
}

/// What is left of the pool for the winners once the fee is taken.
pub open spec fn distributable_amount(fee_percent: u8, pool: int) -> int {
    pool - fee_amount(fee_percent, pool)
}

/// The payout of a rank whose share is `share` percent: that many hundredths
/// of `distributable`, rounded down.
pub open spec fn reward_amount(share: u8, distributable: int) -> int {
    (share * distributable) / 100
}

/// The payouts of all ranks of a reward table together.
pub open spec fn total_rewards(shares: Seq<u8>, distributable: int) -> int
    decreases shares.len(),
{
    if shares.len() == 0 {
        0
    } else {
        total_rewards(shares.drop_last(), distributable) + reward_amount(
            shares.last(),
            distributable,
        )
    }
}

/// A fee of at most 100 percent is at most the pool.
pub proof fn lemma_fee_within_pool(fee_percent: u8, pool: int)
    requires
        fee_percent <= 100,
        0 <= pool,
    ensures
        0 <= fee_amount(fee_percent, pool) <= pool,
        0 <= distributable_amount(fee_percent, pool) <= pool,
{
    assert(0 <= fee_percent * pool <= 100 * pool) by (nonlinear_arith)
        requires
            0 <= fee_percent <= 100,
            0 <= pool,
    ;
}

/// A share of at most 100 percent pays at most what is distributable.
pub proof fn lemma_reward_within_distributable(share: u8, distributable: int)
    requires
        share <= 100,
        0 <= distributable,
    ensures
        0 <= reward_amount(share, distributable) <= distributable,
{
    assert(0 <= share * distributable <= 100 * distributable) by (nonlinear_arith)
        requires
            0 <= share <= 100,
            0 <= distributable,
    ;
}

/// Each payout is rounded down by itself, so the payouts together are at most
/// the hundredths of `distributable` that the shares add up to, and fall short
/// of them by at most 99 hundredths of a unit for each rank.
pub proof fn lemma_total_rewards_bounds(shares: Seq<u8>, distributable: int)
    requires
        0 <= distributable,
    ensures
        100 * total_rewards(shares, distributable) <= total(shares) * distributable,
        total(shares) * distributable <= 100 * total_rewards(shares, distributable) + 99
            * shares.len(),
        0 <= total_rewards(shares, distributable),
    decreases shares.len(),
{
    if shares.len() > 0 {
        let head = shares.drop_last();
        let last = shares.last();
        lemma_total_rewards_bounds(head, distributable);
        assert((total(head) + last) * distributable == total(head) * distributable + last
            * distributable) by (nonlinear_arith);
        assert(0 <= last * distributable) by (nonlinear_arith)
            requires
                0 <= last,
                0 <= distributable,
        ;
    }
}

/// The winners of a reward table are never paid more than is distributable,
/// and what stays behind is less than one unit for each rank.
pub proof fn lemma_rewards_leave_dust(shares: Seq<u8>, distributable: int)
    requires
        total(shares) == TOTAL_REWARD_PERCENT,
        0 <= distributable,
    ensures
        0 <= total_rewards(shares, distributable) <= distributable,
        distributable - total_rewards(shares, distributable) < shares.len(),
{
    lemma_total_rewards_bounds(shares, distributable);
    lemma_total_bounds(shares);
}

/// Computes `fee_amount`.
pub fn compute_fee_amount(fee_percent: u8, pool: u64) -> (fee: u64)
    requires
        fee_percent <= 100,
    ensures
        fee == fee_amount(fee_percent, pool as int),
        fee <= pool,
{
    proof {
        lemma_fee_within_pool(fee_percent, pool as int);
        assert(fee_percent * pool <= 100 * pool) by (nonlinear_arith)
            requires
                0 <= fee_percent <= 100,
                0 <= pool,
        ;
    }
    let scaled: u128 = (fee_percent as u128) * (pool as u128);
    (scaled / 100) as u64
}

/// Computes `reward_amount`.
pub fn compute_reward_amount(share: u8, distributable: u64) -> (reward: u64)
    requires
        share <= 100,
    ensures
        reward == reward_amount(share, distributable as int),
        reward <= distributable,
{
    proof {
        lemma_reward_within_distributable(share, distributable as int);
        assert(share * distributable <= 100 * distributable) by (nonlinear_arith)
            requires
                0 <= share <= 100,
                0 <= distributable,
        ;
    }
    let scaled: u128 = (share as u128) * (distributable as u128);
    (scaled / 100) as u64
}

} // verus!
