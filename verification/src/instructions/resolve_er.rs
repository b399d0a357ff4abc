use crate::errors::ContestError;
use crate::instructions::resolve::{
    is_resolution_of, is_settlement_data, resolution_fee, resolve_guard, settle,
    settlement_prices,
};
use crate::oracle::PriceUpdate;
use crate::pubkey::Pubkey;
use crate::roi::Roi;
use crate::settlement::compute_fee_amount;
use crate::state::contest::TokenDraftContest;
use crate::state::credit::TokenDraftContestCredits;
use crate::state::metadata::ContestMetadata;
use vstd::prelude::*;

verus! {

/// The records that a resolution on the delegated venue works on: the venue's
/// own copies of the contest and of the global counters, both on loan to it.
#[derive(Clone, Debug, PartialEq, Eq)]
pub struct ResolveTokenDraftContestEr {
    pub signer: Pubkey,
    pub contest_metadata: ContestMetadata,
    pub contest_key: Pubkey,
    pub contest: TokenDraftContest,
    pub contest_credits: TokenDraftContestCredits,
    pub feeds: Vec<Option<PriceUpdate>>,
}

impl ResolveTokenDraftContestEr {
    /// The records are well-formed and belong together.
    pub open spec fn wf(self) -> bool {
        &&& self.contest.wf()
        &&& self.contest_metadata.wf()
        &&& self.contest_credits.wf_in(self.contest, self.contest_key)
    }

    /// Computes `wf`.
    pub fn is_well_formed(&self) -> (valid: bool)
        ensures
            valid == self.wf(),
    {
        self.contest.is_well_formed() && self.contest_metadata.is_well_formed()
            && self.contest_credits.is_well_formed_in(&self.contest, &self.contest_key)
    }
}

/// Why a resolution on the delegated venue is refused, if it is: a record is
/// not on loan to the venue, `resolve_guard` refuses, the settlement data is
/// incomplete, or the accrued fees would leave the range of `u64`.
pub open spec fn resolve_er_refusal(
    ctx: ResolveTokenDraftContestEr,
    now: u64,
    token_rois: Seq<Roi>,
    user_avg_rois: Seq<Roi>,
) -> Option<ContestError> {
    if !ctx.contest.is_delegated || !ctx.contest_metadata.is_delegated {
        Some(ContestError::NotDelegated)
    } else if resolve_guard(ctx.contest, now) is Some {
        resolve_guard(ctx.contest, now)
    } else if !is_settlement_data(ctx.contest, ctx.feeds@, token_rois, user_avg_rois) {
        Some(ContestError::InvalidFeeds)
    } else if ctx.contest_metadata.token_draft_contest_fee_amount + resolution_fee(
        ctx.contest,
        ctx.contest_metadata,
    ) > u64::MAX {
        Some(ContestError::AmountOverflow)
    } else {
        None
    }
}

/// Whether `after` is what an accepted resolution on the venue makes of
/// `before`, with `fee` the fee it takes: the contest is resolved, the fee is
/// added to the accrued fees, and nothing else has changed.
pub open spec fn is_resolved_er_from(
    before: ResolveTokenDraftContestEr,
    after: ResolveTokenDraftContestEr,
    token_rois: Seq<Roi>,
    user_avg_rois: Seq<Roi>,
    fee: u64,
) -> bool {
    &&& fee == resolution_fee(before.contest, before.contest_metadata)
    &&& is_resolution_of(before.contest, after.contest, token_rois, user_avg_rois)
    &&& after.contest_metadata.token_draft_contest_fee_amount
        == before.contest_metadata.token_draft_contest_fee_amount + fee
    &&& after.contest_metadata.token_draft_contest_count
        == before.contest_metadata.token_draft_contest_count
    &&& after.contest_metadata.token_draft_contest_fee_percent
        == before.contest_metadata.token_draft_contest_fee_percent
    &&& after.contest_metadata.is_delegated == before.contest_metadata.is_delegated
    &&& after.signer == before.signer
    &&& after.contest_key == before.contest_key
    &&& after.contest_credits == before.contest_credits
    &&& after.feeds == before.feeds
}

/// On the venue, too, a contest is resolved once: after an accepted
/// resolution, every further one at or after the end of the contest is refused
/// as `AlreadyResolved`, and accrues no fee.
pub proof fn lemma_resolve_er_exactly_once(
    before: ResolveTokenDraftContestEr,
    after: ResolveTokenDraftContestEr,
    first_now: u64,
    first_token_rois: Seq<Roi>,
    first_user_avg_rois: Seq<Roi>,
    fee: u64,
    now: u64,
    token_rois: Seq<Roi>,
    user_avg_rois: Seq<Roi>,
)
    requires
        resolve_er_refusal(before, first_now, first_token_rois, first_user_avg_rois) is None,
        is_resolved_er_from(before, after, first_token_rois, first_user_avg_rois, fee),
        now >= after.contest.end_time,
    ensures
        resolve_er_refusal(after, now, token_rois, user_avg_rois) == Some(
            ContestError::AlreadyResolved,
        ),
{
}

/// On the venue a resolved contest is not resolved again: with both records on
/// loan, at or after the end of the contest, the resolution is refused as
/// `AlreadyResolved`, whatever it is given.
pub proof fn lemma_resolved_is_refused_on_venue(
    ctx: ResolveTokenDraftContestEr,
    now: u64,
    token_rois: Seq<Roi>,
    user_avg_rois: Seq<Roi>,
)
    requires
        ctx.wf(),
        ctx.contest.is_resolved,
        ctx.contest.is_delegated,
        ctx.contest_metadata.is_delegated,
        now >= ctx.contest.end_time,
    ensures
        resolve_er_refusal(ctx, now, token_rois, user_avg_rois) == Some(
            ContestError::AlreadyResolved,
        ),
{
}

/// What an accepted resolution on the venue adds to the accrued fees is the
/// fee on the pool: `fee_percent` hundredths of `entry_fee × num_entries`,
/// rounded down.
pub proof fn lemma_venue_accrues_the_fee(
    before: ResolveTokenDraftContestEr,
    after: ResolveTokenDraftContestEr,
    token_rois: Seq<Roi>,
    user_avg_rois: Seq<Roi>,
    fee: u64,
)
    requires
        is_resolved_er_from(before, after, token_rois, user_avg_rois, fee),
    ensures
        after.contest.is_resolved,
        fee == (before.contest_metadata.token_draft_contest_fee_percent * (before.contest.entry_fee
            * before.contest.num_entries)) / 100,
        after.contest_metadata.token_draft_contest_fee_amount
            == before.contest_metadata.token_draft_contest_fee_amount + fee,
{
}

/// Resolves the contest on the delegated venue at the time `now`, as
/// `resolve_token_draft_contest` does on the primary ledger, but for the fee:
/// no transfer is asked for, the fee is added to the fees accrued in the
/// global counters. The result is the fee. Both records are then to be
/// committed back to the primary ledger. A refused resolution changes nothing.
pub fn resolve_token_draft_contest_er(
    ctx: &mut ResolveTokenDraftContestEr,
    now: u64,
    token_rois: Vec<Roi>,
    user_avg_rois: Vec<Roi>,
) -> (res: Result<u64, ContestError>)
    requires
        old(ctx).wf(),
    ensures
        final(ctx).wf(),
        match res {
            Ok(fee) => resolve_er_refusal(*old(ctx), now, token_rois@, user_avg_rois@) is None
                && is_resolved_er_from(
                *old(ctx),
                *final(ctx),
                token_rois@,
                user_avg_rois@,
                fee,
            ),
            Err(e) => resolve_er_refusal(*old(ctx), now, token_rois@, user_avg_rois@) == Some(e)
                && *final(ctx) == *old(ctx),
        },
{
    if !ctx.contest.is_delegated || !ctx.contest_metadata.is_delegated {
        return Err(ContestError::NotDelegated);
    }
    match settlement_prices(&ctx.contest, now, &ctx.feeds) {
        Ok(_) => {},
        Err(e) => {
            return Err(e);
        },
    }
    if token_rois.len() != ctx.contest.token_feed_ids.len() || user_avg_rois.len()
        != ctx.contest.num_entries as usize {
        return Err(ContestError::InvalidFeeds);
    }
    let pool: u64 = ctx.contest.pool_amount();
    let fee: u64 = compute_fee_amount(ctx.contest_metadata.token_draft_contest_fee_percent, pool);
    let accrued: u64 = match ctx.contest_metadata.token_draft_contest_fee_amount.checked_add(fee) {
        Some(sum) => sum,
        None => {
            return Err(ContestError::AmountOverflow);
        },
    };
    settle(&mut ctx.contest, token_rois, &user_avg_rois);
    ctx.contest_metadata.token_draft_contest_fee_amount = accrued;
    Ok(fee)
}

} // verus!
