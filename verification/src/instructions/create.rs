use crate::allocation::{check_reward_allocation, is_reward_allocation};
use crate::errors::ContestError;
use crate::oracle::{check_feeds_present, has_feed_for_each, PriceUpdate};
use crate::pubkey::Pubkey;
use crate::settlement::pool_amount;
use crate::state::contest::{state_of, ContestState, TokenDraftContest, MAX_TOKEN_PER_DRAFT};
use crate::state::credit::TokenDraftContestCredits;
use crate::state::metadata::ContestMetadata;
use vstd::prelude::*;

verus! {

/// The records that the creation of a contest works on. `contest` and
/// `contest_credits` are the places, stored under `contest_key`, that the new
/// contest and its ledger will take; `feeds` holds a price update for each
/// asset, at the asset's place.
#[derive(Clone, Debug, PartialEq, Eq)]
pub struct CreateTokenDraftContest {
    pub signer: Pubkey,
    pub contest_metadata: ContestMetadata,
    pub contest_key: Pubkey,
    pub contest: Option<TokenDraftContest>,
    pub contest_credits: Option<TokenDraftContestCredits>,
    pub feeds: Vec<Option<PriceUpdate>>,
}

impl CreateTokenDraftContest {
    /// The records are well-formed, and a contest and a ledger that are there
    /// belong together.
    pub open spec fn wf(self) -> bool {
        &&& self.contest_metadata.wf()
        &&& match self.contest {
            Some(contest) => contest.wf() && match self.contest_credits {
                Some(credits) => credits.wf_in(contest, self.contest_key),
                None => true,
            },
            None => true,
        }
    }

    /// Computes `wf`.
    pub fn is_well_formed(&self) -> (valid: bool)
        ensures
            valid == self.wf(),
    {
        if !self.contest_metadata.is_well_formed() {
            return false;
        }
        match &self.contest {
            Some(contest) => contest.is_well_formed() && match &self.contest_credits {
                Some(credits) => credits.is_well_formed_in(contest, &self.contest_key),
                None => true,
            },
            None => true,
        }
    }
}

/// Why the creation of a contest is refused, if it is. The reasons are tried
/// in this order: the place of the contest or of its ledger is taken; the
/// global counters are on loan; the contest does not start after `now`, or
/// does not end after it starts; the reward table is none; the number of
/// assets is out of range; a price update is missing; the entry fees of a
/// full contest, or the next contest id, would leave the range of `u64`.
pub open spec fn create_refusal(
    ctx: CreateTokenDraftContest,
    now: u64,
    start_time: u64,
    end_time: u64,
    entry_fee: u64,
    max_entries: u32,
    token_feed_ids: Seq<Pubkey>,
    reward_allocation: Seq<u8>,
) -> Option<ContestError> {
    if ctx.contest is Some || ctx.contest_credits is Some {
        Some(ContestError::ContestStillActive)
    } else if ctx.contest_metadata.is_delegated {
        Some(ContestError::Delegated)
    } else if start_time <= now || end_time <= start_time {
        Some(ContestError::InvalidDuration)
    } else if !is_reward_allocation(reward_allocation) {
        Some(ContestError::InvalidRewardAllocation)
    } else if token_feed_ids.len() == 0 || token_feed_ids.len() > MAX_TOKEN_PER_DRAFT {
        Some(ContestError::InvalidDraftTokenCount)
    } else if !has_feed_for_each(ctx.feeds@, token_feed_ids.len()) {
        Some(ContestError::InvalidFeeds)
    } else if pool_amount(entry_fee, max_entries) > u64::MAX
        || ctx.contest_metadata.token_draft_contest_count == u64::MAX {
        Some(ContestError::AmountOverflow)
    } else {
        None
    }
}

/// Whether `contest` is the contest that a creation with these arguments
/// makes: it has the given terms, no entry, no price and no outcome.
pub open spec fn is_new_contest(
    contest: TokenDraftContest,
    id: u64,
    creator: Pubkey,
    start_time: u64,
    end_time: u64,
    entry_fee: u64,
    max_entries: u32,
    token_feed_ids: Seq<Pubkey>,
    reward_allocation: Seq<u8>,
) -> bool {
    &&& contest.id == id
    &&& contest.creator == creator
    &&& contest.start_time == start_time
    &&& contest.end_time == end_time
    &&& contest.entry_fee == entry_fee
    &&& contest.max_entries == max_entries
    &&& contest.num_entries == 0
    &&& contest.token_feed_ids@ == token_feed_ids
    &&& contest.token_start_prices@.len() == 0
    &&& contest.token_rois@.len() == 0
    &&& contest.winner_reward_allocation@ == reward_allocation
    &&& contest.winner_ids@.len() == 0
    &&& !contest.is_resolved
    &&& !contest.is_delegated
}

/// Creates a contest that opens at once and starts at `start_time`. The
/// contest takes the next contest id, its ledger starts empty, and the next
/// contest id moves on by one. A refused creation changes nothing.
pub fn create_token_draft_contest(
    ctx: &mut CreateTokenDraftContest,
    now: u64,
    start_time: u64,
    end_time: u64,
    entry_fee: u64,
    max_entries: u32,
    token_feed_ids: Vec<Pubkey>,
    reward_allocation: Vec<u8>,
) -> (res: Result<(), ContestError>)
    requires
        old(ctx).wf(),
    ensures
        final(ctx).wf(),
        match res {
            Ok(_) => {
                &&& create_refusal(
                    *old(ctx),
                    now,
                    start_time,
                    end_time,
                    entry_fee,
                    max_entries,
                    token_feed_ids@,
                    reward_allocation@,
                ) is None
                &&& final(ctx).contest is Some
                &&& is_new_contest(
                    final(ctx).contest.unwrap(),
                    old(ctx).contest_metadata.token_draft_contest_count,
                    old(ctx).signer,
                    start_time,
                    end_time,
                    entry_fee,
                    max_entries,
                    token_feed_ids@,
                    reward_allocation@,
                )
                &&& state_of(final(ctx).contest, now) == ContestState::Open
                &&& final(ctx).contest_credits is Some
                &&& final(ctx).contest_credits.unwrap().contest_key == old(ctx).contest_key
                &&& final(ctx).contest_credits.unwrap().credit_allocations@.len() == 0
                &&& final(ctx).contest_metadata == (ContestMetadata {
                    token_draft_contest_count: (old(
                        ctx,
                    ).contest_metadata.token_draft_contest_count + 1) as u64,
                    ..old(ctx).contest_metadata
                })
                &&& final(ctx).signer == old(ctx).signer
                &&& final(ctx).contest_key == old(ctx).contest_key
                &&& final(ctx).feeds == old(ctx).feeds
            },
            Err(e) => create_refusal(
                *old(ctx),
                now,
                start_time,
                end_time,
                entry_fee,
                max_entries,
                token_feed_ids@,
                reward_allocation@,
            ) == Some(e) && *final(ctx) == *old(ctx),
        },
{
    if ctx.contest.is_some() || ctx.contest_credits.is_some() {
        return Err(ContestError::ContestStillActive);
    }
    if ctx.contest_metadata.is_delegated {
        return Err(ContestError::Delegated);
    }
    if start_time <= now || end_time <= start_time {
        return Err(ContestError::InvalidDuration);
    }
    if !check_reward_allocation(&reward_allocation) {
        return Err(ContestError::InvalidRewardAllocation);
    }
    if token_feed_ids.len() == 0 || token_feed_ids.len() > MAX_TOKEN_PER_DRAFT {
        return Err(ContestError::InvalidDraftTokenCount);
    }
    if !check_feeds_present(&ctx.feeds, token_feed_ids.len()) {
        return Err(ContestError::InvalidFeeds);
    }
    assert(entry_fee * max_entries <= 0xffff_ffff_ffff_ffff * 0xffff_ffff) by (nonlinear_arith)
        requires
            0 <= entry_fee <= 0xffff_ffff_ffff_ffff,
            0 <= max_entries <= 0xffff_ffff,
    ;
    if (entry_fee as u128) * (max_entries as u128) > u64::MAX as u128
        || ctx.contest_metadata.token_draft_contest_count == u64::MAX {
        return Err(ContestError::AmountOverflow);
    }
    let contest = TokenDraftContest {
        id: ctx.contest_metadata.token_draft_contest_count,
        creator: ctx.signer,
        start_time,
        end_time,
        entry_fee,
        max_entries,
        num_entries: 0,
        token_feed_ids,
        token_start_prices: Vec::new(),
        token_rois: Vec::new(),
        winner_reward_allocation: reward_allocation,
        winner_ids: Vec::new(),
        is_resolved: false,
        is_delegated: false,
    };
    let credits = TokenDraftContestCredits {
        contest_key: ctx.contest_key,
        credit_allocations: Vec::new(),
    };
    assert(pool_amount(entry_fee, 0) == 0) by (nonlinear_arith);
    ctx.contest = Some(contest);
    ctx.contest_credits = Some(credits);
    ctx.contest_metadata.token_draft_contest_count = ctx.contest_metadata.token_draft_contest_count
        + 1;
    Ok(())
}

} // verus!
