//! The life of a contest: from `Draft` through `Open`, `Locked` and `Ended`
//! to `Resolved`, and which operation is accepted in which state.

use crate::errors::ContestError;
use crate::instructions::create::{create_refusal, is_new_contest, CreateTokenDraftContest};
use crate::instructions::enter::{enter_refusal, EnterTokenDraftContest};
use crate::instructions::post_prices::{post_prices_refusal, PostTokenDraftContestPrices};
use crate::instructions::resolve::{
    is_resolved_from, resolve_guard, resolve_refusal, ResolveTokenDraftContest,
};
use crate::instructions::withdraw_fee::{withdraw_refusal, WithdrawFee};
use crate::pubkey::Pubkey;
use crate::rail::Transfer;
use crate::roi::Roi;
use crate::state::contest::{state_of, ContestState, TokenDraftContest};
use vstd::prelude::*;

verus! {

/// A contest moves forward only: as time goes on and as it is resolved, its
/// state never goes back to an earlier one.
pub open spec fn is_no_earlier(later: ContestState, earlier: ContestState) -> bool {
    stage(later) >= stage(earlier)
}

/// The place of a state in the life of a contest.
pub open spec fn stage(state: ContestState) -> int {
    match state {
        ContestState::Draft => 0,
        ContestState::Open => 1,
        ContestState::Locked => 2,
        ContestState::Ended => 3,
        ContestState::Resolved => 4,
    }
}

/// While a contest is not changed, its state only moves forward with time.
pub proof fn lemma_state_follows_time(contest: TokenDraftContest, earlier: u64, later: u64)
    requires
        contest.start_time < contest.end_time,
        earlier <= later,
    ensures
        is_no_earlier(contest.state_at(later), contest.state_at(earlier)),
{
}

/// Creation leads from `Draft` to `Open`: it is accepted only where there is
/// no contest yet, and the contest it makes is open.
pub proof fn lemma_create_opens(
    ctx: CreateTokenDraftContest,
    now: u64,
    start_time: u64,
    end_time: u64,
    entry_fee: u64,
    max_entries: u32,
    token_feed_ids: Seq<Pubkey>,
    reward_allocation: Seq<u8>,
    created: TokenDraftContest,
)
    requires
        create_refusal(
            ctx,
            now,
            start_time,
            end_time,
            entry_fee,
            max_entries,
            token_feed_ids,
            reward_allocation,
        ) is None,
        is_new_contest(
            created,
            ctx.contest_metadata.token_draft_contest_count,
            ctx.signer,
            start_time,
            end_time,
            entry_fee,
            max_entries,
            token_feed_ids,
            reward_allocation,
        ),
    ensures
        state_of(ctx.contest, now) == ContestState::Draft,
        created.state_at(now) == ContestState::Open,
        created.start_time < created.end_time,
{
}

/// Entries are accepted in `Open` only, and only below `max_entries`.
pub proof fn lemma_enter_needs_open(ctx: EnterTokenDraftContest, now: u64, allocation: Seq<u8>)
    requires
        enter_refusal(ctx, now, allocation) is None,
    ensures
        ctx.contest.state_at(now) == ContestState::Open,
        now < ctx.contest.start_time,
        ctx.contest.num_entries < ctx.contest.max_entries,
{
}

/// Start prices are captured once the contest has started, and once only: in
/// `Locked` or `Ended`, while none has been captured.
pub proof fn lemma_post_prices_needs_started(ctx: PostTokenDraftContestPrices, now: u64)
    requires
        ctx.contest.wf(),
        post_prices_refusal(ctx, now) is None,
    ensures
        ctx.contest.state_at(now) == ContestState::Locked || ctx.contest.state_at(now)
            == ContestState::Ended,
        !ctx.contest.has_start_prices(),
{
}

/// Resolution leads from `Ended` to `Resolved`: it is accepted only in
/// `Ended` with the start prices captured, and the contest it leaves is
/// resolved.
pub proof fn lemma_resolve_ends(
    before: ResolveTokenDraftContest,
    after: ResolveTokenDraftContest,
    now: u64,
    token_rois: Seq<Roi>,
    user_avg_rois: Seq<Roi>,
    transfer: Transfer,
)
    requires
        before.contest.wf(),
        resolve_refusal(before, now, token_rois, user_avg_rois) is None,
        is_resolved_from(before, after, token_rois, user_avg_rois, transfer),
    ensures
        before.contest.state_at(now) == ContestState::Ended,
        before.contest.has_start_prices(),
        after.contest.state_at(now) == ContestState::Resolved,
{
}

/// Each violated guard of a resolution has an error of its own.
pub proof fn lemma_resolve_guard_is_exact(contest: TokenDraftContest, now: u64)
    requires
        contest.wf(),
    ensures
        resolve_guard(contest, now) == Some(ContestError::ContestPriceNotSet)
            <==> !contest.has_start_prices(),
        resolve_guard(contest, now) == Some(ContestError::ContestNotEnded)
            <==> contest.has_start_prices() && now < contest.end_time,
        resolve_guard(contest, now) == Some(ContestError::AlreadyResolved)
            <==> contest.has_start_prices() && now >= contest.end_time && contest.is_resolved,
        resolve_guard(contest, now) is None <==> contest.has_start_prices() && contest.state_at(
            now,
        ) == ContestState::Ended,
{
}

/// `Resolved` is final: a resolved contest takes no entry, no start price and
/// no resolution, at any time.
pub proof fn lemma_resolved_is_final(
    contest: TokenDraftContest,
    enter: EnterTokenDraftContest,
    post: PostTokenDraftContestPrices,
    resolve: ResolveTokenDraftContest,
    now: u64,
    allocation: Seq<u8>,
    token_rois: Seq<Roi>,
    user_avg_rois: Seq<Roi>,
)
    requires
        contest.wf(),
        contest.is_resolved,
        enter.contest == contest,
        post.contest == contest,
        resolve.contest == contest,
    ensures
        enter_refusal(enter, now, allocation) is Some,
        post_prices_refusal(post, now) is Some,
        resolve_refusal(resolve, now, token_rois, user_avg_rois) is Some,
{
}

/// While a contest is on loan to the delegated venue, the primary ledger
/// changes nothing of it: it takes no entry, no start price and no resolution,
/// at any time. While the global counters are on loan, it creates no contest
/// and withdraws no fee.
pub proof fn lemma_on_loan_is_frozen(
    withdraw: WithdrawFee,
    enter: EnterTokenDraftContest,
    post: PostTokenDraftContestPrices,
    resolve: ResolveTokenDraftContest,
    create: CreateTokenDraftContest,
    now: u64,
    allocation: Seq<u8>,
    token_rois: Seq<Roi>,
    user_avg_rois: Seq<Roi>,
    start_time: u64,
    end_time: u64,
    entry_fee: u64,
    max_entries: u32,
    token_feed_ids: Seq<Pubkey>,
    reward_allocation: Seq<u8>,
)
    ensures
        withdraw.contest_metadata.is_delegated ==> withdraw_refusal(withdraw) is Some,
        enter.contest.is_delegated ==> enter_refusal(enter, now, allocation) is Some,
        post.contest.is_delegated ==> post_prices_refusal(post, now) == Some(
            ContestError::Delegated,
        ),
        resolve.contest.is_delegated ==> resolve_refusal(resolve, now, token_rois, user_avg_rois)
            == Some(ContestError::Delegated),
        create.contest_metadata.is_delegated ==> create_refusal(
            create,
            now,
            start_time,
            end_time,
            entry_fee,
            max_entries,
            token_feed_ids,
            reward_allocation,
        ) is Some,
{
}

} // verus!
