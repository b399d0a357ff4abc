use crate::allocation::{total, TOTAL_CREDIT_PER_CONTEST};
use crate::pubkey::Pubkey;
use crate::state::contest::TokenDraftContest;
use vstd::prelude::*;

verus! {

/// The credit ledger of one contest: the credit allocations of its entries,
/// one after the other in the order of the entries' indices. It only grows, by
/// one allocation with every entry.
#[derive(Clone, Debug, PartialEq, Eq)]
pub struct TokenDraftContestCredits {
    /// Where the contest of the ledger is stored.
    pub contest_key: Pubkey,
    pub credit_allocations: Vec<u8>,
}

/// The allocation of the entry `entry_id` in a ledger of allocations of
/// `num_tokens` weights each.
pub open spec fn row(ledger: Seq<u8>, entry_id: int, num_tokens: int) -> Seq<u8> {
    ledger.subrange(entry_id * num_tokens, entry_id * num_tokens + num_tokens)
}

/// Whether `ledger` holds `num_entries` allocations of `num_tokens` weights
/// each and nothing else, each of them summing to `TOTAL_CREDIT_PER_CONTEST`.
pub open spec fn is_ledger(ledger: Seq<u8>, num_entries: int, num_tokens: int) -> bool {
    &&& ledger.len() == num_entries * num_tokens
    &&& forall|e: int|
        0 <= e < num_entries ==> total(#[trigger] row(ledger, e, num_tokens))
            == TOTAL_CREDIT_PER_CONTEST
}

/// The rows of a ledger lie inside it, one behind the other.
pub proof fn lemma_row_in_bounds(num_entries: int, entry_id: int, num_tokens: int)
    requires
        0 <= entry_id < num_entries,
        0 <= num_tokens,
    ensures
        0 <= entry_id * num_tokens,
        entry_id * num_tokens + num_tokens <= num_entries * num_tokens,
        (entry_id + 1) * num_tokens == entry_id * num_tokens + num_tokens,
{
    assert(0 <= entry_id * num_tokens) by (nonlinear_arith)
        requires
            0 <= entry_id,
            0 <= num_tokens,
    ;
    assert((entry_id + 1) * num_tokens == entry_id * num_tokens + num_tokens)
        by (nonlinear_arith);
    assert((entry_id + 1) * num_tokens <= num_entries * num_tokens) by (nonlinear_arith)
        requires
            entry_id + 1 <= num_entries,
            0 <= num_tokens,
    ;
}

/// A ledger with one more allocation behind it is the ledger of one more
/// entry: the rows before keep their place, and the new row is the allocation.
pub proof fn lemma_ledger_append(
    ledger: Seq<u8>,
    allocation: Seq<u8>,
    num_entries: int,
    num_tokens: int,
)
    requires
        0 <= num_entries,
        is_ledger(ledger, num_entries, num_tokens),
        allocation.len() == num_tokens,
        total(allocation) == TOTAL_CREDIT_PER_CONTEST,
    ensures
        is_ledger(ledger + allocation, num_entries + 1, num_tokens),
        row(ledger + allocation, num_entries, num_tokens) == allocation,
        forall|e: int|
            0 <= e < num_entries ==> #[trigger] row(ledger + allocation, e, num_tokens) == row(
                ledger,
                e,
                num_tokens,
            ),
{
    let grown = ledger + allocation;
    lemma_row_in_bounds(num_entries + 1, num_entries, num_tokens);
    assert(row(grown, num_entries, num_tokens) =~= allocation);
    assert forall|e: int| 0 <= e < num_entries implies #[trigger] row(grown, e, num_tokens) == row(
        ledger,
        e,
        num_tokens,
    ) by {
        lemma_row_in_bounds(num_entries, e, num_tokens);
        assert(row(grown, e, num_tokens) =~= row(ledger, e, num_tokens));
    }
    assert forall|e: int| 0 <= e < num_entries + 1 implies total(
        #[trigger] row(grown, e, num_tokens),
    ) == TOTAL_CREDIT_PER_CONTEST by {
        if e < num_entries {
            assert(row(grown, e, num_tokens) == row(ledger, e, num_tokens));
        }
    }
}

/// Computes `total` of the `count` weights of `ledger` from `start` on.
fn sum_from(ledger: &Vec<u8>, start: usize, count: usize) -> (sum: u128)
    requires
        start + count <= ledger@.len(),
    ensures
        sum == total(ledger@.subrange(start as int, start + count)),
{
    let len: usize = ledger.len();
    let mut sum: u128 = 0;
    let mut i: usize = 0;
    while i < count
        invariant
            i <= count,
            start + count <= len == ledger@.len(),
            sum == total(ledger@.subrange(start as int, start + i)),
            sum <= 255 * i,
        decreases count - i,
    {
        assert(ledger@.subrange(start as int, start + i + 1).drop_last() =~= ledger@.subrange(
            start as int,
            start + i,
        ));
        sum = sum + ledger[start + i] as u128;
        i += 1;
    }
    sum
}

/// Computes `is_ledger`.
pub fn check_ledger(ledger: &Vec<u8>, num_entries: u32, num_tokens: usize) -> (valid: bool)
    ensures
        valid == is_ledger(ledger@, num_entries as int, num_tokens as int),
{
    let len: usize = ledger.len();
    assert(num_entries * num_tokens <= 0xffff_ffff * 0xffff_ffff_ffff_ffff) by (nonlinear_arith)
        requires
            0 <= num_entries <= 0xffff_ffff,
            0 <= num_tokens <= 0xffff_ffff_ffff_ffff,
    ;
    if (num_entries as u128) * (num_tokens as u128) != len as u128 {
        return false;
    }
    let entries: usize = num_entries as usize;
    let mut e: usize = 0;
    let mut start: usize = 0;
    while e < entries
        invariant
            e <= entries == num_entries,
            start == e * num_tokens,
            len == ledger@.len(),
            len == num_entries * num_tokens,
            forall|r: int|
                0 <= r < e ==> total(#[trigger] row(ledger@, r, num_tokens as int))
                    == TOTAL_CREDIT_PER_CONTEST,
        decreases entries - e,
    {
        proof {
            lemma_row_in_bounds(entries as int, e as int, num_tokens as int);
        }
        let sum: u128 = sum_from(ledger, start, num_tokens);
        assert(ledger@.subrange(start as int, start + num_tokens) == row(
            ledger@,
            e as int,
            num_tokens as int,
        ));
        if sum != TOTAL_CREDIT_PER_CONTEST as u128 {
            return false;
        }
        start = start + num_tokens;
        e += 1;
    }
    true
}

impl TokenDraftContestCredits {
    /// What holds of the stored ledger of the contest `contest`, itself stored
    /// under `contest_key`: it holds one allocation for each entry of the
    /// contest, each over the assets of the contest.
    pub open spec fn wf_in(self, contest: TokenDraftContest, contest_key: Pubkey) -> bool {
        &&& self.contest_key == contest_key
        &&& is_ledger(
            self.credit_allocations@,
            contest.num_entries as int,
            contest.token_feed_ids@.len() as int,
        )
    }

    /// Computes `wf_in`.
    pub fn is_well_formed_in(&self, contest: &TokenDraftContest, contest_key: &Pubkey) -> (valid:
        bool)
        ensures
            valid == self.wf_in(*contest, *contest_key),
    {
        if self.contest_key != *contest_key {
            return false;
        }
        check_ledger(
            &self.credit_allocations,
            contest.num_entries,
            contest.token_feed_ids.len(),
        )
    }

    /// The allocation of the entry `entry_id` of a contest over `num_tokens`
    /// assets, where the ledger reaches that far.
    pub fn allocation_of(&self, entry_id: u32, num_tokens: usize) -> (allocation: Option<Vec<u8>>)
        ensures
            match allocation {
                Some(weights) => (entry_id + 1) * num_tokens <= self.credit_allocations@.len()
                    && weights@ == row(
                    self.credit_allocations@,
                    entry_id as int,
                    num_tokens as int,
                ),
                None => (entry_id + 1) * num_tokens > self.credit_allocations@.len(),
            },
    {
        let index: usize = entry_id as usize;
        let len: usize = self.credit_allocations.len();
        assert((entry_id + 1) * num_tokens <= 0x1_0000_0000 * 0xffff_ffff_ffff_ffff)
            by (nonlinear_arith)
            requires
                0 <= entry_id + 1 <= 0x1_0000_0000,
                0 <= num_tokens <= 0xffff_ffff_ffff_ffff,
        ;
        if (entry_id as u128 + 1) * (num_tokens as u128) > len as u128 {
            return None;
        }
        proof {
            lemma_row_in_bounds(index + 1, index as int, num_tokens as int);
        }
        let start: usize = index * num_tokens;
        let mut weights: Vec<u8> = Vec::with_capacity(num_tokens);
        let mut i: usize = 0;
        while i < num_tokens
            invariant
                i <= num_tokens,
                start + num_tokens <= len == self.credit_allocations@.len(),
                weights@ == self.credit_allocations@.subrange(start as int, start + i),
            decreases num_tokens - i,
        {
            weights.push(self.credit_allocations[start + i]);
            assert(weights@ =~= self.credit_allocations@.subrange(start as int, start + i + 1));
            i += 1;
        }
        Some(weights)
    }
}

} // verus!
