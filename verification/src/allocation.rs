//! Credit allocations of entries and reward tables of contests: lists of
//! weights that sum to 100.

use vstd::prelude::*;

verus! {

/// Credits that every entry spreads over the assets of its contest.
pub const TOTAL_CREDIT_PER_CONTEST: u8 = 100;

/// Percentage points that a reward table shares out among the winners.
pub const TOTAL_REWARD_PERCENT: u8 = 100;

/// The sum of the weights.
pub open spec fn total(weights: Seq<u8>) -> int
    decreases weights.len(),
{
    if weights.len() == 0 {
        0
    } else {
        total(weights.drop_last()) + weights.last()
    }
}

/// Whether `weights` allocates the credits of one entry over `num_tokens`
/// assets: one weight for each asset, `TOTAL_CREDIT_PER_CONTEST` in all.
pub open spec fn is_credit_allocation(weights: Seq<u8>, num_tokens: nat) -> bool {
    weights.len() == num_tokens && total(weights) == TOTAL_CREDIT_PER_CONTEST
}

/// Whether no share is greater than the share before it.
pub open spec fn is_non_increasing(shares: Seq<u8>) -> bool {
    forall|i: int| 0 < i < shares.len() ==> shares[i - 1] >= #[trigger] shares[i]
}

/// Whether `shares` is a reward table: the share of each rank in percent, no
/// rank rewarded above a better one, `TOTAL_REWARD_PERCENT` in all.
pub open spec fn is_reward_allocation(shares: Seq<u8>) -> bool {
    is_non_increasing(shares) && total(shares) == TOTAL_REWARD_PERCENT
}

/// No weight is greater than the sum, and the sum is at most 255 for each weight.
pub proof fn lemma_total_bounds(weights: Seq<u8>)
    ensures
        0 <= total(weights) <= 255 * weights.len(),
        forall|i: int| 0 <= i < weights.len() ==> #[trigger] weights[i] <= total(weights),
    decreases weights.len(),
{
    if weights.len() > 0 {
        lemma_total_bounds(weights.drop_last());
        assert forall|i: int| 0 <= i < weights.len() implies #[trigger] weights[i] <= total(
            weights,
        ) by {
            if i < weights.len() - 1 {
                assert(weights.drop_last()[i] == weights[i]);
            }
        }
    }
}

/// Computes `total`.
pub fn sum_of(weights: &Vec<u8>) -> (sum: u128)
    ensures
        sum == total(weights@),
{
    let mut sum: u128 = 0;
    let mut i: usize = 0;
    while i < weights.len()
        invariant
            i <= weights.len(),
            sum == total(weights@.subrange(0, i as int)),
            sum <= 255 * i,
        decreases weights.len() - i,
    {
        assert(weights@.subrange(0, i + 1).drop_last() =~= weights@.subrange(0, i as int));
        sum = sum + weights[i] as u128;
        i += 1;
    }
    assert(weights@.subrange(0, i as int) =~= weights@);
    sum
}

/// Computes `is_credit_allocation`.
pub fn check_credit_allocation(weights: &Vec<u8>, num_tokens: usize) -> (valid: bool)
    ensures
        valid == is_credit_allocation(weights@, num_tokens as nat),
{
    weights.len() == num_tokens && sum_of(weights) == TOTAL_CREDIT_PER_CONTEST as u128
}

/// Computes `is_reward_allocation`.
pub fn check_reward_allocation(shares: &Vec<u8>) -> (valid: bool)
    ensures
        valid == is_reward_allocation(shares@),
{
    let mut i: usize = 1;
    while i < shares.len()
        invariant
            1 <= i,
            forall|k: int| 0 < k < i && k < shares.len() ==> shares[k - 1] >= #[trigger] shares[k],
        decreases shares.len() - i,
    {
        if shares[i - 1] < shares[i] {
            return false;
        }
        i += 1;
    }
    sum_of(shares) == TOTAL_REWARD_PERCENT as u128
}

} // verus!
