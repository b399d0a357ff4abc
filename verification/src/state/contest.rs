use crate::allocation::{check_reward_allocation, is_reward_allocation};
use crate::oracle::Price;
use crate::pubkey::Pubkey;
use crate::roi::Roi;
use crate::settlement::pool_amount;
use vstd::prelude::*;

verus! {

/// The most assets that a contest can be drawn over.
pub const MAX_TOKEN_PER_DRAFT: usize = 5;

/// Where a contest stands in its life.
#[derive(Clone, Copy, Debug, PartialEq, Eq, Structural)]
pub enum ContestState {
    /// No record yet: the contest is being created.
    Draft,
    /// Before `start_time`: entries are accepted.
    Open,
    /// From `start_time` to before `end_time`: no more entries.
    Locked,
    /// From `end_time` on, until resolved: the contest awaits resolution.
    Ended,
    /// Returns and winners are fixed for good.
    Resolved,
}

/// One contest over a fixed set of assets and a fixed window of time.
#[derive(Clone, Debug, PartialEq, Eq)]
pub struct TokenDraftContest {
    pub id: u64,
    pub creator: Pubkey,
    pub start_time: u64,
    pub end_time: u64,
    pub entry_fee: u64,
    pub max_entries: u32,
    pub num_entries: u32,
    /// The price feed of each asset.
    pub token_feed_ids: Vec<Pubkey>,
    /// The price of each asset at the start; empty until captured.
    pub token_start_prices: Vec<Price>,
    /// The return of each asset at settlement; empty until resolved.
    pub token_rois: Vec<Roi>,
    /// The share of the rewards of each rank, in percent.
    pub winner_reward_allocation: Vec<u8>,
    /// The entry at each rank, best first; empty until resolved.
    pub winner_ids: Vec<u32>,
    pub is_resolved: bool,
    /// Whether the record is on loan to the delegated venue.
    pub is_delegated: bool,
}

/// Whether `ids` names entries of a contest with `num_entries` entries, and
/// none of them twice.
pub open spec fn are_distinct_entries(ids: Seq<u32>, num_entries: u32) -> bool {
    &&& forall|i: int| 0 <= i < ids.len() ==> #[trigger] ids[i] < num_entries
    &&& forall|i: int, j: int| 0 <= i < j < ids.len() ==> #[trigger] ids[i] != #[trigger] ids[j]
}

/// Computes `are_distinct_entries`.
pub fn check_distinct_entries(ids: &Vec<u32>, num_entries: u32) -> (valid: bool)
    ensures
        valid == are_distinct_entries(ids@, num_entries),
{
    let mut j: usize = 0;
    while j < ids.len()
        invariant
            j <= ids@.len(),
            forall|i: int| 0 <= i < j ==> #[trigger] ids@[i] < num_entries,
            forall|a: int, b: int| 0 <= a < b < j ==> #[trigger] ids@[a] != #[trigger] ids@[b],
        decreases ids.len() - j,
    {
        if ids[j] >= num_entries {
            return false;
        }
        let mut i: usize = 0;
        while i < j
            invariant
                i <= j < ids@.len(),
                forall|a: int| 0 <= a < i ==> #[trigger] ids@[a] != ids@[j as int],
            decreases j - i,
        {
            if ids[i] == ids[j] {
                return false;
            }
            i += 1;
        }
        j += 1;
    }
    true
}

/// The state of the contest held in `slot` at the time `now`.
pub open spec fn state_of(slot: Option<TokenDraftContest>, now: u64) -> ContestState {
    match slot {
        None => ContestState::Draft,
        Some(contest) => contest.state_at(now),
    }
}

impl TokenDraftContest {
    /// The state of the contest at the time `now`.
    pub open spec fn state_at(self, now: u64) -> ContestState {
        if self.is_resolved {
            ContestState::Resolved
        } else if now < self.start_time {
            ContestState::Open
        } else if now < self.end_time {
            ContestState::Locked
        } else {
            ContestState::Ended
        }
    }

    /// Whether the start prices have been captured.
    pub open spec fn has_start_prices(self) -> bool {
        self.token_start_prices@.len() > 0
    }

    /// How many winners a resolution of this contest names: one for each rank
    /// of the reward table, as far as there are entries.
    pub open spec fn num_winners(self) -> nat {
        if self.num_entries <= self.winner_reward_allocation@.len() {
            self.num_entries as nat
        } else {
            self.winner_reward_allocation@.len()
        }
    }

    /// What holds of every stored contest.
    pub open spec fn wf(self) -> bool {
        &&& self.start_time < self.end_time
        &&& self.num_entries <= self.max_entries
        &&& 0 < self.token_feed_ids@.len() <= MAX_TOKEN_PER_DRAFT
        &&& is_reward_allocation(self.winner_reward_allocation@)
        &&& pool_amount(self.entry_fee, self.max_entries) <= u64::MAX
        &&& (self.has_start_prices() ==> self.token_start_prices@.len()
            == self.token_feed_ids@.len())
        &&& forall|i: int|
            0 <= i < self.token_start_prices@.len() ==> (
            #[trigger] self.token_start_prices@[i]).is_start_price()
        &&& if self.is_resolved {
            &&& self.has_start_prices()
            &&& self.token_rois@.len() == self.token_feed_ids@.len()
            &&& self.winner_ids@.len() == self.num_winners()
            &&& are_distinct_entries(self.winner_ids@, self.num_entries)
        } else {
            &&& self.token_rois@.len() == 0
            &&& self.winner_ids@.len() == 0
        }
    }

    /// Computes `wf`.
    pub fn is_well_formed(&self) -> (valid: bool)
        ensures
            valid == self.wf(),
    {
        if !(self.start_time < self.end_time && self.num_entries <= self.max_entries) {
            return false;
        }
        let num_tokens: usize = self.token_feed_ids.len();
        if !(0 < num_tokens && num_tokens <= MAX_TOKEN_PER_DRAFT) {
            return false;
        }
        if !check_reward_allocation(&self.winner_reward_allocation) {
            return false;
        }
        assert(self.entry_fee * self.max_entries <= 0xffff_ffff_ffff_ffff * 0xffff_ffff)
            by (nonlinear_arith)
            requires
                0 <= self.entry_fee <= 0xffff_ffff_ffff_ffff,
                0 <= self.max_entries <= 0xffff_ffff,
        ;
        if (self.entry_fee as u128) * (self.max_entries as u128) > u64::MAX as u128 {
            return false;
        }
        let num_prices: usize = self.token_start_prices.len();
        if num_prices > 0 && num_prices != num_tokens {
            return false;
        }
        let mut i: usize = 0;
        while i < num_prices
            invariant
                i <= num_prices,
                num_prices == self.token_start_prices@.len(),
                forall|k: int|
                    0 <= k < i ==> (#[trigger] self.token_start_prices@[k]).is_start_price(),
            decreases num_prices - i,
        {
            let price = &self.token_start_prices[i];
            if !(price.check_usable() && price.price != 0) {
                return false;
            }
            i += 1;
        }
        if self.is_resolved {
            let ranks: usize = self.winner_reward_allocation.len();
            let num_winners: usize = if (self.num_entries as usize) <= ranks {
                self.num_entries as usize
            } else {
                ranks
            };
            num_prices > 0 && self.token_rois.len() == num_tokens && self.winner_ids.len()
                == num_winners && check_distinct_entries(&self.winner_ids, self.num_entries)
        } else {
            self.token_rois.len() == 0 && self.winner_ids.len() == 0
        }
    }

    /// Whether entries are accepted at the time `now`: the contest has not
    /// started.
    pub fn is_entry_active(&self, now: u64) -> (active: bool)
        ensures
            active == (now < self.start_time),
    {
        now < self.start_time
    }

    /// Whether the window of the contest has closed at the time `now`.
    pub fn has_ended(&self, now: u64) -> (ended: bool)
        ensures
            ended == (now >= self.end_time),
    {
        now >= self.end_time
    }

    /// Computes `state_at`.
    pub fn state(&self, now: u64) -> (state: ContestState)
        ensures
            state == self.state_at(now),
    {
        if self.is_resolved {
            ContestState::Resolved
        } else if self.is_entry_active(now) {
            ContestState::Open
        } else if !self.has_ended(now) {
            ContestState::Locked
        } else {
            ContestState::Ended
        }
    }

    /// The entry fees collected so far.
    pub fn pool_amount(&self) -> (pool: u64)
        requires
            self.wf(),
        ensures
            pool == pool_amount(self.entry_fee, self.num_entries),
    {
        proof {
            assert(self.entry_fee * self.num_entries <= self.entry_fee * self.max_entries)
                by (nonlinear_arith)
                requires
                    self.num_entries <= self.max_entries,
                    0 <= self.entry_fee,
            ;
        }
        self.entry_fee * (self.num_entries as u64)
    }

    /// The rank of the entry `entry_id`, the best rank being 0: the first
    /// place at which the winners hold it, and nothing where they do not.
    pub open spec fn rank_of(self, entry_id: u32) -> Option<int> {
        self.winner_ids@.index_of_first(entry_id)
    }

    /// Computes `rank_of`.
    pub fn winner_rank(&self, entry_id: u32) -> (rank: Option<usize>)
        ensures
            match rank {
                Some(r) => self.rank_of(entry_id) == Some(r as int) && r < self.winner_ids@.len()
                    && self.winner_ids@[r as int] == entry_id,
                None => self.rank_of(entry_id) is None && !self.winner_ids@.contains(entry_id),
            },
    {
        let mut i: usize = 0;
        while i < self.winner_ids.len()
            invariant
                i <= self.winner_ids@.len(),
                forall|k: int| 0 <= k < i ==> #[trigger] self.winner_ids@[k] != entry_id,
            decreases self.winner_ids.len() - i,
        {
            if self.winner_ids[i] == entry_id {
                proof {
                    let ids = self.winner_ids@;
                    assert(ids[i as int] == entry_id);
                    assert(ids.contains(entry_id));
                    ids.index_of_first_ensures(entry_id);
                    let first = ids.index_of_first(entry_id).unwrap();
                    assert(ids[first] == entry_id);
                    assert(first == i);
                }
                return Some(i);
            }
            i += 1;
        }
        proof {
            self.winner_ids@.index_of_first_ensures(entry_id);
        }
        None
    }
}

} // verus!
