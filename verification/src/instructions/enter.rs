use crate::allocation::{check_credit_allocation, is_credit_allocation};
use crate::errors::ContestError;
use crate::instructions::resolve::same_terms;
use crate::pubkey::Pubkey;
use crate::rail::{Party, Transfer};
use crate::state::config::Config;
use crate::state::contest::{ContestState, TokenDraftContest};
use crate::state::credit::{lemma_ledger_append, TokenDraftContestCredits};
use crate::state::entry::TokenDraftContestEntry;
use vstd::prelude::*;

verus! {

/// The records that an entry into a contest works on. `contest_entry` is the
/// place that the entry of the caller in this contest takes: there is one such
/// place for each pair of contest and participant.
#[derive(Clone, Debug, PartialEq, Eq)]
pub struct EnterTokenDraftContest {
    pub signer: Pubkey,
    pub config: Config,
    pub contest_key: Pubkey,
    pub contest: TokenDraftContest,
    pub contest_entry: Option<TokenDraftContestEntry>,
    pub contest_credits: TokenDraftContestCredits,
}

impl EnterTokenDraftContest {
    /// The records are well-formed and belong together.
    pub open spec fn wf(self) -> bool {
        &&& self.contest.wf()
        &&& self.contest_credits.wf_in(self.contest, self.contest_key)
        &&& match self.contest_entry {
            Some(entry) => entry.wf_in(self.contest, self.contest_key),
            None => true,
        }
    }

    /// Computes `wf`.
    pub fn is_well_formed(&self) -> (valid: bool)
        ensures
            valid == self.wf(),
    {
        self.contest.is_well_formed() && self.contest_credits.is_well_formed_in(
            &self.contest,
            &self.contest_key,
        ) && match &self.contest_entry {
            Some(entry) => entry.is_well_formed_in(&self.contest, &self.contest_key),
            None => true,
        }
    }
}

/// Why an entry is refused, if it is. The reasons are tried in this order: the
/// caller holds an entry in the contest already; the contest is on loan; the
/// contest is not open at the time `now`; the contest is full; the allocation
/// does not hold one weight for each asset, or its weights do not sum to
/// `TOTAL_CREDIT_PER_CONTEST`.
pub open spec fn enter_refusal(
    ctx: EnterTokenDraftContest,
    now: u64,
    credit_allocation: Seq<u8>,
) -> Option<ContestError> {
    if ctx.contest_entry is Some {
        Some(ContestError::AlreadyEntered)
    } else if ctx.contest.is_delegated {
        Some(ContestError::Delegated)
    } else if ctx.contest.state_at(now) != ContestState::Open {
        Some(ContestError::EntryClosed)
    } else if ctx.contest.num_entries >= ctx.contest.max_entries {
        Some(ContestError::AlreadyFull)
    } else if !is_credit_allocation(credit_allocation, ctx.contest.token_feed_ids@.len()) {
        Some(ContestError::InvalidDraftTokenDistribution)
    } else {
        None
    }
}

/// Whether `after` is `before` with one more entry and nothing else changed.
pub open spec fn has_one_more_entry(before: TokenDraftContest, after: TokenDraftContest) -> bool {
    &&& same_terms(before, after)
    &&& after.num_entries == before.num_entries + 1
    &&& after.token_start_prices@ == before.token_start_prices@
    &&& after.token_rois@ == before.token_rois@
    &&& after.winner_ids@ == before.winner_ids@
    &&& after.is_resolved == before.is_resolved
    &&& after.is_delegated == before.is_delegated
}

/// Whether `after` is what an accepted entry with the allocation
/// `credit_allocation` makes of `before`, and `transfer` what it asks for: the
/// contest has one more entry, the place of the entry holds the new entry with
/// the index that was next, the ledger has grown by the allocation, and the
/// entry fee is to go from the caller to the escrow.
pub open spec fn is_entry_into(
    before: EnterTokenDraftContest,
    after: EnterTokenDraftContest,
    credit_allocation: Seq<u8>,
    transfer: Transfer,
) -> bool {
    &&& transfer.from == Party::Participant
    &&& transfer.to == Party::Escrow
    &&& transfer.authority == Party::Participant
    &&& transfer.amount == before.contest.entry_fee
    &&& has_one_more_entry(before.contest, after.contest)
    &&& after.contest_entry is Some
    &&& after.contest_entry.unwrap().user == before.signer
    &&& after.contest_entry.unwrap().id == before.contest.num_entries
    &&& after.contest_entry.unwrap().contest_key == before.contest_key
    &&& after.contest_entry.unwrap().credit_allocation@ == credit_allocation
    &&& !after.contest_entry.unwrap().has_claimed
    &&& after.contest_credits.contest_key == before.contest_credits.contest_key
    &&& after.contest_credits.credit_allocations@ == before.contest_credits.credit_allocations@
        + credit_allocation
    &&& after.signer == before.signer
    &&& after.config == before.config
    &&& after.contest_key == before.contest_key
}

/// An allocation is accepted only if it holds one weight for each asset of
/// the contest and its weights sum to `TOTAL_CREDIT_PER_CONTEST`: any other is
/// refused, whatever the state of the contest.
pub proof fn lemma_invalid_allocation_is_refused(
    ctx: EnterTokenDraftContest,
    now: u64,
    credit_allocation: Seq<u8>,
)
    requires
        !is_credit_allocation(credit_allocation, ctx.contest.token_feed_ids@.len()),
    ensures
        enter_refusal(ctx, now, credit_allocation) is Some,
{
}

/// In an open contest with room, entered by a participant who holds no entry
/// in it, an allocation with the wrong number of weights or the wrong sum is
/// refused as `InvalidDraftTokenDistribution`, and any other is accepted.
pub proof fn lemma_allocation_decides(
    ctx: EnterTokenDraftContest,
    now: u64,
    credit_allocation: Seq<u8>,
)
    requires
        ctx.contest_entry is None,
        !ctx.contest.is_delegated,
        ctx.contest.state_at(now) == ContestState::Open,
        ctx.contest.num_entries < ctx.contest.max_entries,
    ensures
        enter_refusal(ctx, now, credit_allocation) == if is_credit_allocation(
            credit_allocation,
            ctx.contest.token_feed_ids@.len(),
        ) {
            None
        } else {
            Some(ContestError::InvalidDraftTokenDistribution)
        },
{
}

/// A participant enters a contest once: after an accepted entry, every further
/// entry of the same participant into the same contest is refused as
/// `AlreadyEntered`, at any time and with any allocation.
pub proof fn lemma_enter_exactly_once(
    before: EnterTokenDraftContest,
    after: EnterTokenDraftContest,
    first_allocation: Seq<u8>,
    transfer: Transfer,
    now: u64,
    second_allocation: Seq<u8>,
)
    requires
        is_entry_into(before, after, first_allocation, transfer),
    ensures
        enter_refusal(after, now, second_allocation) == Some(ContestError::AlreadyEntered),
{
}

/// Enters the caller into the contest with the given credit allocation. The
/// entry takes the next index of the contest, its allocation is added to the
/// ledger, and the result asks for the transfer of the entry fee from the
/// caller to the escrow. A refused entry changes nothing.
pub fn enter_token_draft_contest(
    ctx: &mut EnterTokenDraftContest,
    now: u64,
    credit_allocation: Vec<u8>,
) -> (res: Result<Transfer, ContestError>)
    requires
        old(ctx).wf(),
    ensures
        final(ctx).wf(),
        match res {
            Ok(transfer) => enter_refusal(*old(ctx), now, credit_allocation@) is None
                && is_entry_into(*old(ctx), *final(ctx), credit_allocation@, transfer),
            Err(e) => enter_refusal(*old(ctx), now, credit_allocation@) == Some(e) && *final(ctx)
                == *old(ctx),
        },
{
    if ctx.contest_entry.is_some() {
        return Err(ContestError::AlreadyEntered);
    }
    if ctx.contest.is_delegated {
        return Err(ContestError::Delegated);
    }
    if ctx.contest.is_resolved || !ctx.contest.is_entry_active(now) {
        return Err(ContestError::EntryClosed);
    }
    if ctx.contest.num_entries >= ctx.contest.max_entries {
        return Err(ContestError::AlreadyFull);
    }
    if !check_credit_allocation(&credit_allocation, ctx.contest.token_feed_ids.len()) {
        return Err(ContestError::InvalidDraftTokenDistribution);
    }
    let ghost ledger_before = ctx.contest_credits.credit_allocations@;
    let mut i: usize = 0;
    while i < credit_allocation.len()
        invariant
            i <= credit_allocation@.len(),
            ctx.contest_credits.credit_allocations@ == ledger_before
                + credit_allocation@.subrange(0, i as int),
            ctx.contest_credits.contest_key == old(ctx).contest_credits.contest_key,
            ctx.contest == old(ctx).contest,
            ctx.contest_entry == old(ctx).contest_entry,
            ctx.signer == old(ctx).signer,
            ctx.config == old(ctx).config,
            ctx.contest_key == old(ctx).contest_key,
        decreases credit_allocation.len() - i,
    {
        ctx.contest_credits.credit_allocations.push(credit_allocation[i]);
        assert(ctx.contest_credits.credit_allocations@ =~= ledger_before
            + credit_allocation@.subrange(0, i + 1));
        i += 1;
    }
    proof {
        assert(credit_allocation@.subrange(0, i as int) =~= credit_allocation@);
        lemma_ledger_append(
            ledger_before,
            credit_allocation@,
            ctx.contest.num_entries as int,
            ctx.contest.token_feed_ids@.len() as int,
        );
    }
    let id: u32 = ctx.contest.num_entries;
    ctx.contest.num_entries = id + 1;
    ctx.contest_entry = Some(
        TokenDraftContestEntry {
            user: ctx.signer,
            id,
            contest_key: ctx.contest_key,
            credit_allocation,
            has_claimed: false,
        },
    );
    Ok(
        Transfer {
            from: Party::Participant,
            to: Party::Escrow,
            authority: Party::Participant,
            amount: ctx.contest.entry_fee,
        },
    )
}

} // verus!
