use crate::errors::ContestError;
use crate::pubkey::Pubkey;
use crate::state::contest::TokenDraftContest;
use crate::state::metadata::ContestMetadata;
use vstd::prelude::*;

verus! {

/// The primary ledger's copies of the two records that are lent to the
/// delegated venue: the global counters and one contest.
#[derive(Clone, Debug, PartialEq, Eq)]
pub struct DelegateEr {
    pub signer: Pubkey,
    pub contest_metadata: ContestMetadata,
    pub contest: TokenDraftContest,
}

impl DelegateEr {
    /// The records are well-formed.
    pub open spec fn wf(self) -> bool {
        self.contest.wf() && self.contest_metadata.wf()
    }

    /// Computes `wf`.
    pub fn is_well_formed(&self) -> (valid: bool)
        ensures
            valid == self.wf(),
    {
        self.contest.is_well_formed() && self.contest_metadata.is_well_formed()
    }
}

/// Whether `after` is `before` but for who may change it.
pub open spec fn differs_in_loan_only(before: TokenDraftContest, after: TokenDraftContest) -> bool {
    &&& after.id == before.id
    &&& after.creator == before.creator
    &&& after.start_time == before.start_time
    &&& after.end_time == before.end_time
    &&& after.entry_fee == before.entry_fee
    &&& after.max_entries == before.max_entries
    &&& after.num_entries == before.num_entries
    &&& after.token_feed_ids == before.token_feed_ids
    &&& after.token_start_prices == before.token_start_prices
    &&& after.token_rois == before.token_rois
    &&& after.winner_reward_allocation == before.winner_reward_allocation
    &&& after.winner_ids == before.winner_ids
    &&& after.is_resolved == before.is_resolved
}

/// Lends the contest and the global counters to the delegated venue: from now
/// on only the venue may change them, and every operation of the primary
/// ledger that would change one of them is refused as `Delegated`. Records of
/// which one is on loan already are refused, and nothing changes.
pub fn delegate_er(ctx: &mut DelegateEr) -> (res: Result<(), ContestError>)
    requires
        old(ctx).wf(),
    ensures
        final(ctx).wf(),
        match res {
            Ok(_) => {
                &&& !old(ctx).contest.is_delegated
                &&& !old(ctx).contest_metadata.is_delegated
                &&& final(ctx).contest.is_delegated
                &&& differs_in_loan_only(old(ctx).contest, final(ctx).contest)
                &&& final(ctx).contest_metadata == (ContestMetadata {
                    is_delegated: true,
                    ..old(ctx).contest_metadata
                })
                &&& final(ctx).signer == old(ctx).signer
            },
            Err(e) => {
                &&& e == ContestError::Delegated
                &&& old(ctx).contest.is_delegated || old(ctx).contest_metadata.is_delegated
                &&& *final(ctx) == *old(ctx)
            },
        },
{
    if ctx.contest.is_delegated || ctx.contest_metadata.is_delegated {
        return Err(ContestError::Delegated);
    }
    ctx.contest.is_delegated = true;
    ctx.contest_metadata.is_delegated = true;
    Ok(())
}

/// Takes back what the venue commits: the primary ledger's copies become the
/// venue's copies `contest` and `contest_metadata`, and the right to change
/// them returns to the primary ledger. The primary ledger does not check what
/// the venue computed. Records that are not both on loan are refused as
/// `NotDelegated`, and nothing changes.
pub fn commit_and_undelegate(
    ctx: &mut DelegateEr,
    contest: TokenDraftContest,
    contest_metadata: ContestMetadata,
) -> (res: Result<(), ContestError>)
    requires
        old(ctx).wf(),
        contest.wf(),
        contest_metadata.wf(),
    ensures
        final(ctx).wf(),
        match res {
            Ok(_) => {
                &&& old(ctx).contest.is_delegated
                &&& old(ctx).contest_metadata.is_delegated
                &&& !final(ctx).contest.is_delegated
                &&& differs_in_loan_only(contest, final(ctx).contest)
                &&& final(ctx).contest_metadata == (ContestMetadata {
                    is_delegated: false,
                    ..contest_metadata
                })
                &&& final(ctx).signer == old(ctx).signer
            },
            Err(e) => {
                &&& e == ContestError::NotDelegated
                &&& !old(ctx).contest.is_delegated || !old(ctx).contest_metadata.is_delegated
                &&& *final(ctx) == *old(ctx)
            },
        },
{
    if !ctx.contest.is_delegated || !ctx.contest_metadata.is_delegated {
        return Err(ContestError::NotDelegated);
    }
    ctx.contest = contest;
    ctx.contest.is_delegated = false;
    ctx.contest_metadata = contest_metadata;
    ctx.contest_metadata.is_delegated = false;
    Ok(())
}

} // verus!
