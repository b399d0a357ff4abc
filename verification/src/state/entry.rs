use crate::allocation::{check_credit_allocation, is_credit_allocation};
use crate::pubkey::Pubkey;
use crate::state::contest::TokenDraftContest;
use vstd::prelude::*;

verus! {

/// The entry of one participant in one contest. There is at most one for each
/// pair of contest and participant.
#[derive(Clone, Debug, PartialEq, Eq)]
pub struct TokenDraftContestEntry {
    /// The participant who owns the entry.
    pub user: Pubkey,
    /// The place of the entry among the entries of its contest, counted from 0
    /// in the order of creation.
    pub id: u32,
    /// Where the contest of the entry is stored.
    pub contest_key: Pubkey,
    /// The weight that the entry gives to each asset of the contest.
    pub credit_allocation: Vec<u8>,
    pub has_claimed: bool,
}

impl TokenDraftContestEntry {
    /// What holds of every stored entry of the contest `contest`, itself stored
    /// under `contest_key`: the entry counts among the entries of the contest,
    /// it allocates its credits over the assets of the contest, and it has been
    /// paid out only if the contest is resolved with the entry among the
    /// winners.
    pub open spec fn wf_in(self, contest: TokenDraftContest, contest_key: Pubkey) -> bool {
        &&& self.contest_key == contest_key
        &&& self.id < contest.num_entries
        &&& is_credit_allocation(self.credit_allocation@, contest.token_feed_ids@.len())
        &&& (self.has_claimed ==> contest.is_resolved && contest.winner_ids@.contains(self.id))
    }

    /// Computes `wf_in`.
    pub fn is_well_formed_in(&self, contest: &TokenDraftContest, contest_key: &Pubkey) -> (valid:
        bool)
        ensures
            valid == self.wf_in(*contest, *contest_key),
    {
        if !(self.contest_key == *contest_key && self.id < contest.num_entries) {
            return false;
        }
        if !check_credit_allocation(&self.credit_allocation, contest.token_feed_ids.len()) {
            return false;
        }
        if self.has_claimed {
            contest.is_resolved && contest.winner_rank(self.id).is_some()
        } else {
            true
        }
    }
}

} // verus!
