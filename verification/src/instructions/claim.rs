use crate::errors::ContestError;
use crate::pubkey::Pubkey;
use crate::rail::{Party, Transfer};
use crate::settlement::{
    compute_fee_amount, compute_reward_amount, distributable_amount, fee_amount,
    lemma_fee_within_pool, lemma_rewards_leave_dust, lemma_total_rewards_bounds, pool_amount,
    reward_amount, total_rewards,
};
use crate::allocation::lemma_total_bounds;
use crate::state::config::Config;
use crate::state::contest::TokenDraftContest;
use crate::state::entry::TokenDraftContestEntry;
use crate::state::metadata::ContestMetadata;
use vstd::prelude::*;

verus! {

/// The records that a claim works on: the contest, and the entry that the
/// caller holds in it.
#[derive(Clone, Debug, PartialEq, Eq)]
pub struct ClaimTokenDraftContest {
    pub signer: Pubkey,
    pub config: Config,
    pub contest_key: Pubkey,
    pub contest: TokenDraftContest,
    pub contest_metadata: ContestMetadata,
    pub contest_entry: TokenDraftContestEntry,
}

impl ClaimTokenDraftContest {
    /// The records are well-formed and belong together.
    pub open spec fn wf(self) -> bool {
        &&& self.contest.wf()
        &&& self.contest_metadata.wf()
        &&& self.contest_entry.wf_in(self.contest, self.contest_key)
    }

    /// Computes `wf`.
    pub fn is_well_formed(&self) -> (valid: bool)
        ensures
            valid == self.wf(),
    {
        self.contest.is_well_formed() && self.contest_metadata.is_well_formed()
            && self.contest_entry.is_well_formed_in(&self.contest, &self.contest_key)
    }
}

/// Why a claim is refused, if it is: the contest is not resolved, the entry
/// has been paid out, or the entry is not the caller's or not a winner.
pub open spec fn claim_refusal(ctx: ClaimTokenDraftContest) -> Option<ContestError> {
    if !ctx.contest.is_resolved {
        Some(ContestError::ContestNotResolved)
    } else if ctx.contest_entry.has_claimed {
        Some(ContestError::AlreadyClaimed)
    } else if ctx.contest_entry.user != ctx.signer || ctx.contest.rank_of(ctx.contest_entry.id)
        is None {
        Some(ContestError::NotWinner)
    } else {
        None
    }
}

/// What a resolved contest pays to the winner at the rank `rank`: the share of
/// that rank of what the pool holds after the fee.
pub open spec fn payout_at(
    contest: TokenDraftContest,
    metadata: ContestMetadata,
    rank: int,
) -> int {
    reward_amount(
        contest.winner_reward_allocation@[rank],
        distributable_amount(
            metadata.token_draft_contest_fee_percent,
            pool_amount(contest.entry_fee, contest.num_entries),
        ),
    )
}

/// What a resolved contest pays to the winners at the first `ranks` ranks
/// together.
pub open spec fn payouts_up_to(
    contest: TokenDraftContest,
    metadata: ContestMetadata,
    ranks: nat,
) -> int
    decreases ranks,
{
    if ranks == 0 {
        0
    } else {
        payouts_up_to(contest, metadata, (ranks - 1) as nat) + payout_at(
            contest,
            metadata,
            ranks - 1,
        )
    }
}

/// The pool covers the fee and the payouts: whatever number of winners a
/// contest has, the fee and the payouts of all its winners together are at
/// most the entry fees that it has collected.
pub proof fn lemma_pool_covers_payouts(
    contest: TokenDraftContest,
    metadata: ContestMetadata,
    ranks: nat,
)
    requires
        contest.wf(),
        metadata.wf(),
        ranks <= contest.winner_reward_allocation@.len(),
    ensures
        0 <= payouts_up_to(contest, metadata, ranks),
        fee_amount(
            metadata.token_draft_contest_fee_percent,
            pool_amount(contest.entry_fee, contest.num_entries),
        ) + payouts_up_to(contest, metadata, ranks) <= pool_amount(
            contest.entry_fee,
            contest.num_entries,
        ),
{
    let shares = contest.winner_reward_allocation@;
    let pool = pool_amount(contest.entry_fee, contest.num_entries);
    let distributable = distributable_amount(metadata.token_draft_contest_fee_percent, pool);
    assert(0 <= pool) by (nonlinear_arith)
        requires
            pool == contest.entry_fee * contest.num_entries,
    ;
    lemma_fee_within_pool(metadata.token_draft_contest_fee_percent, pool);
    lemma_rewards_leave_dust(shares, distributable);
    lemma_payouts_are_rewards(contest, metadata, ranks);
    lemma_total_rewards_grows(shares, distributable, ranks);
}

/// The payouts of the first ranks are the rewards of the first shares.
proof fn lemma_payouts_are_rewards(
    contest: TokenDraftContest,
    metadata: ContestMetadata,
    ranks: nat,
)
    requires
        ranks <= contest.winner_reward_allocation@.len(),
    ensures
        payouts_up_to(contest, metadata, ranks) == total_rewards(
            contest.winner_reward_allocation@.subrange(0, ranks as int),
            distributable_amount(
                metadata.token_draft_contest_fee_percent,
                pool_amount(contest.entry_fee, contest.num_entries),
            ),
        ),
    decreases ranks,
{
    let shares = contest.winner_reward_allocation@;
    if ranks > 0 {
        lemma_payouts_are_rewards(contest, metadata, (ranks - 1) as nat);
        assert(shares.subrange(0, ranks as int).drop_last() =~= shares.subrange(0, ranks - 1));
    }
}

/// The rewards of the first shares are at most the rewards of all shares.
proof fn lemma_total_rewards_grows(shares: Seq<u8>, distributable: int, ranks: nat)
    requires
        0 <= distributable,
        ranks <= shares.len(),
    ensures
        0 <= total_rewards(shares.subrange(0, ranks as int), distributable) <= total_rewards(
            shares,
            distributable,
        ),
    decreases shares.len() - ranks,
{
    lemma_total_rewards_bounds(shares.subrange(0, ranks as int), distributable);
    if ranks < shares.len() {
        lemma_total_rewards_grows(shares, distributable, ranks + 1);
        assert(shares.subrange(0, ranks as int + 1).drop_last() =~= shares.subrange(
            0,
            ranks as int,
        ));
        assert(0 <= shares[ranks as int] * distributable) by (nonlinear_arith)
            requires
                0 <= shares[ranks as int],
                0 <= distributable,
        ;
    } else {
        assert(shares.subrange(0, ranks as int) =~= shares);
    }
}

/// Whether `after` is what an accepted claim makes of `before`, and
/// `transfer` what it asks for: the entry is marked as claimed, nothing else
/// has changed, and the payout of the entry's rank is to go from the escrow to
/// the caller.
pub open spec fn is_claim_of(
    before: ClaimTokenDraftContest,
    after: ClaimTokenDraftContest,
    transfer: Transfer,
) -> bool {
    &&& transfer.from == Party::Escrow
    &&& transfer.to == Party::Participant
    &&& transfer.authority == Party::Escrow
    &&& transfer.amount == payout_at(
        before.contest,
        before.contest_metadata,
        before.contest.rank_of(before.contest_entry.id).unwrap(),
    )
    &&& after.contest_entry.has_claimed
    &&& after.contest_entry.user == before.contest_entry.user
    &&& after.contest_entry.id == before.contest_entry.id
    &&& after.contest_entry.contest_key == before.contest_entry.contest_key
    &&& after.contest_entry.credit_allocation == before.contest_entry.credit_allocation
    &&& after.signer == before.signer
    &&& after.config == before.config
    &&& after.contest_key == before.contest_key
    &&& after.contest == before.contest
    &&& after.contest_metadata == before.contest_metadata
}

/// An entry is paid out once: after an accepted claim, every further claim of
/// the same entry is refused as `AlreadyClaimed`, and asks for no transfer.
pub proof fn lemma_claim_exactly_once(
    before: ClaimTokenDraftContest,
    after: ClaimTokenDraftContest,
    transfer: Transfer,
)
    requires
        claim_refusal(before) is None,
        is_claim_of(before, after, transfer),
    ensures
        claim_refusal(after) == Some(ContestError::AlreadyClaimed),
{
}

/// Only an entry among the winners is paid: a claim is accepted only if the
/// contest is resolved and holds the entry's index among its winners.
pub proof fn lemma_claim_needs_winner(ctx: ClaimTokenDraftContest)
    requires
        claim_refusal(ctx) is None,
    ensures
        ctx.contest.is_resolved,
        ctx.contest.winner_ids@.contains(ctx.contest_entry.id),
        !ctx.contest_entry.has_claimed,
{
    ctx.contest.winner_ids@.index_of_first_ensures(ctx.contest_entry.id);
}

/// Pays out the entry of the caller. A winning entry of a resolved contest
/// that has not been paid out is marked as claimed, and the result asks for
/// the transfer of its payout from the escrow to the caller. A refused claim
/// changes nothing.
pub fn claim_token_draft_contest(ctx: &mut ClaimTokenDraftContest) -> (res: Result<
    Transfer,
    ContestError,
>)
    requires
        old(ctx).wf(),
    ensures
        final(ctx).wf(),
        match res {
            Ok(transfer) => claim_refusal(*old(ctx)) is None && is_claim_of(
                *old(ctx),
                *final(ctx),
                transfer,
            ),
            Err(e) => claim_refusal(*old(ctx)) == Some(e) && *final(ctx) == *old(ctx),
        },
{
    if !ctx.contest.is_resolved {
        return Err(ContestError::ContestNotResolved);
    }
    if ctx.contest_entry.has_claimed {
        return Err(ContestError::AlreadyClaimed);
    }
    if ctx.contest_entry.user != ctx.signer {
        return Err(ContestError::NotWinner);
    }
    let rank: usize = match ctx.contest.winner_rank(ctx.contest_entry.id) {
        Some(rank) => rank,
        None => {
            return Err(ContestError::NotWinner);
        },
    };
    let share: u8 = ctx.contest.winner_reward_allocation[rank];
    proof {
        lemma_total_bounds(ctx.contest.winner_reward_allocation@);
    }
    let pool: u64 = ctx.contest.pool_amount();
    let fee: u64 = compute_fee_amount(ctx.contest_metadata.token_draft_contest_fee_percent, pool);
    let amount: u64 = compute_reward_amount(share, pool - fee);
    ctx.contest_entry.has_claimed = true;
    Ok(Transfer { from: Party::Escrow, to: Party::Participant, authority: Party::Escrow, amount })
}

} // verus!
