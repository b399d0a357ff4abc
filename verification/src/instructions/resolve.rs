use crate::errors::ContestError;
use crate::oracle::{are_samples_of, covers_all_feeds, read_feed_prices, Price, PriceUpdate};
use crate::pubkey::Pubkey;
use crate::rail::{Party, Transfer};
use crate::ranking::{find_top_n, full_ranking, lemma_full_ranking, top_n};
use crate::roi::Roi;
use crate::settlement::{compute_fee_amount, fee_amount, pool_amount};
use crate::state::contest::{are_distinct_entries, TokenDraftContest};
use crate::state::credit::TokenDraftContestCredits;
use crate::state::metadata::ContestMetadata;
use vstd::prelude::*;

verus! {

/// The records that a resolution on the primary ledger works on. `feeds` holds
/// the settlement price update of each asset, at the asset's place.
#[derive(Clone, Debug, PartialEq, Eq)]
pub struct ResolveTokenDraftContest {
    pub signer: Pubkey,
    pub contest_key: Pubkey,
    pub contest: TokenDraftContest,
    pub contest_credits: TokenDraftContestCredits,
    pub contest_metadata: ContestMetadata,
    pub feeds: Vec<Option<PriceUpdate>>,
}

impl ResolveTokenDraftContest {
    /// The records are well-formed and belong together.
    pub open spec fn wf(self) -> bool {
        &&& self.contest.wf()
        &&& self.contest_metadata.wf()
        &&& self.contest_credits.wf_in(self.contest, self.contest_key)
    }

    /// Computes `wf`.
    pub fn is_well_formed(&self) -> (valid: bool)
        ensures
            valid == self.wf(),
    {
        self.contest.is_well_formed() && self.contest_metadata.is_well_formed()
            && self.contest_credits.is_well_formed_in(&self.contest, &self.contest_key)
    }
}

/// The first reason for which the contest cannot be resolved at the time
/// `now`, if there is one: the start prices have not been captured, the window
/// has not closed, or the contest has been resolved before.
pub open spec fn resolve_guard(contest: TokenDraftContest, now: u64) -> Option<ContestError> {
    if !contest.has_start_prices() {
        Some(ContestError::ContestPriceNotSet)
    } else if now < contest.end_time {
        Some(ContestError::ContestNotEnded)
    } else if contest.is_resolved {
        Some(ContestError::AlreadyResolved)
    } else {
        None
    }
}

/// Whether the settlement data is complete: a usable sample for every asset,
/// a return for every asset, a weighted return for every entry.
pub open spec fn is_settlement_data(
    contest: TokenDraftContest,
    feeds: Seq<Option<PriceUpdate>>,
    token_rois: Seq<Roi>,
    user_avg_rois: Seq<Roi>,
) -> bool {
    &&& covers_all_feeds(contest.token_feed_ids@, feeds)
    &&& token_rois.len() == contest.token_feed_ids@.len()
    &&& user_avg_rois.len() == contest.num_entries
}

/// The weighted returns of the entries, each with the index of its entry.
pub open spec fn indexed(user_avg_rois: Seq<Roi>) -> Seq<(usize, Roi)> {
    Seq::new(user_avg_rois.len(), |i: int| (i as usize, user_avg_rois[i]))
}

/// The winners for `ranks` ranks: the indices of the entries at the head of
/// the full ranking of the weighted returns, best first.
pub open spec fn winners_of(user_avg_rois: Seq<Roi>, ranks: nat) -> Seq<u32> {
    top_n(indexed(user_avg_rois), ranks).map_values(|e: (usize, Roi)| e.0 as u32)
}

/// Whether `after` carries the terms of `before`: what is fixed when a contest
/// is created.
pub open spec fn same_terms(before: TokenDraftContest, after: TokenDraftContest) -> bool {
    &&& after.id == before.id
    &&& after.creator == before.creator
    &&& after.start_time == before.start_time
    &&& after.end_time == before.end_time
    &&& after.entry_fee == before.entry_fee
    &&& after.max_entries == before.max_entries
    &&& after.token_feed_ids@ == before.token_feed_ids@
    &&& after.winner_reward_allocation@ == before.winner_reward_allocation@
}

/// Whether `after` is `before` resolved with the given returns: the returns of
/// the assets are stored, the winners are the best entries by weighted return,
/// and nothing else has changed.
pub open spec fn is_resolution_of(
    before: TokenDraftContest,
    after: TokenDraftContest,
    token_rois: Seq<Roi>,
    user_avg_rois: Seq<Roi>,
) -> bool {
    &&& same_terms(before, after)
    &&& after.num_entries == before.num_entries
    &&& after.token_start_prices@ == before.token_start_prices@
    &&& after.is_delegated == before.is_delegated
    &&& after.token_rois@ == token_rois
    &&& after.winner_ids@ == winners_of(user_avg_rois, before.winner_reward_allocation@.len())
    &&& after.is_resolved
}

/// The fee that the protocol takes when the contest is resolved.
pub open spec fn resolution_fee(contest: TokenDraftContest, metadata: ContestMetadata) -> int {
    fee_amount(
        metadata.token_draft_contest_fee_percent,
        pool_amount(contest.entry_fee, contest.num_entries),
    )
}

/// Checks `resolve_guard`.
pub fn check_resolvable(contest: &TokenDraftContest, now: u64) -> (res: Result<(), ContestError>)
    ensures
        match res {
            Ok(_) => resolve_guard(*contest, now) is None,
            Err(e) => resolve_guard(*contest, now) == Some(e),
        },
{
    if contest.token_start_prices.len() == 0 {
        return Err(ContestError::ContestPriceNotSet);
    }
    if !contest.has_ended(now) {
        return Err(ContestError::ContestNotEnded);
    }
    if contest.is_resolved {
        return Err(ContestError::AlreadyResolved);
    }
    Ok(())
}

/// The settlement price of each asset of a contest that can be resolved at the
/// time `now`, read from `feeds`. The age of a sample is not bounded: its
/// `publish_time` is handed on and not compared with `now`.
pub fn settlement_prices(
    contest: &TokenDraftContest,
    now: u64,
    feeds: &Vec<Option<PriceUpdate>>,
) -> (res: Result<Vec<Price>, ContestError>)
    ensures
        match res {
            Ok(prices) => resolve_guard(*contest, now) is None && covers_all_feeds(
                contest.token_feed_ids@,
                feeds@,
            ) && are_samples_of(prices@, contest.token_feed_ids@, feeds@),
            Err(e) => match resolve_guard(*contest, now) {
                Some(refusal) => e == refusal,
                None => e == ContestError::InvalidFeeds && !covers_all_feeds(
                    contest.token_feed_ids@,
                    feeds@,
                ),
            },
        },
{
    match check_resolvable(contest, now) {
        Ok(_) => read_feed_prices(&contest.token_feed_ids, feeds),
        Err(e) => Err(e),
    }
}

/// A resolution names one winner for each rank, as far as there are entries;
/// each winner is the index of an entry, and no entry wins twice.
pub proof fn lemma_winners_of(user_avg_rois: Seq<Roi>, ranks: nat)
    requires
        user_avg_rois.len() <= u32::MAX,
    ensures
        winners_of(user_avg_rois, ranks).len() == if user_avg_rois.len() <= ranks {
            user_avg_rois.len()
        } else {
            ranks
        },
        forall|k: int|
            0 <= k < winners_of(user_avg_rois, ranks).len() ==> #[trigger] winners_of(
                user_avg_rois,
                ranks,
            )[k] == top_n(indexed(user_avg_rois), ranks)[k].0,
        are_distinct_entries(winners_of(user_avg_rois, ranks), user_avg_rois.len() as u32),
{
    let entries = indexed(user_avg_rois);
    let all = full_ranking(entries);
    let top = top_n(entries, ranks);
    let winners = winners_of(user_avg_rois, ranks);
    lemma_full_ranking(entries);
    assert(entries.no_duplicates());
    entries.lemma_multiset_has_no_duplicates();
    all.lemma_multiset_has_no_duplicates_conv();
    assert forall|k: int| 0 <= k < top.len() implies top[k].0 < user_avg_rois.len()
        && #[trigger] winners[k] == top[k].0 by {
        lemma_entry_of_ranking(user_avg_rois, k);
    }
    assert forall|i: int, j: int| 0 <= i < j < winners.len() implies #[trigger] winners[i]
        != #[trigger] winners[j] by {
        lemma_entry_of_ranking(user_avg_rois, i);
        lemma_entry_of_ranking(user_avg_rois, j);
        assert(all[i] != all[j]);
    }
}

/// Each entry of the full ranking is one of the indexed entries: its index is
/// that of an entry, and its return is the return of that entry.
proof fn lemma_entry_of_ranking(user_avg_rois: Seq<Roi>, k: int)
    requires
        user_avg_rois.len() <= u32::MAX,
        0 <= k < user_avg_rois.len(),
    ensures
        full_ranking(indexed(user_avg_rois))[k].0 < user_avg_rois.len(),
        full_ranking(indexed(user_avg_rois))[k] == indexed(user_avg_rois)[full_ranking(
            indexed(user_avg_rois),
        )[k].0 as int],
{
    let entries = indexed(user_avg_rois);
    let all = full_ranking(entries);
    lemma_full_ranking(entries);
    let e = all[k];
    assert(all.contains(e));
    vstd::seq_lib::to_multiset_contains(all, e);
    vstd::seq_lib::to_multiset_contains(entries, e);
    let at = choose|at: int| 0 <= at < entries.len() && entries[at] == e;
    assert(entries[at].0 == at);
}

/// Ranks the entries and fixes the outcome of the contest.
pub(crate) fn settle(
    contest: &mut TokenDraftContest,
    token_rois: Vec<Roi>,
    user_avg_rois: &Vec<Roi>,
)
    requires
        old(contest).wf(),
        !old(contest).is_resolved,
        old(contest).has_start_prices(),
        token_rois@.len() == old(contest).token_feed_ids@.len(),
        user_avg_rois@.len() == old(contest).num_entries,
    ensures
        final(contest).wf(),
        is_resolution_of(*old(contest), *final(contest), token_rois@, user_avg_rois@),
{
    let mut entries: Vec<(usize, Roi)> = Vec::with_capacity(user_avg_rois.len());
    let mut i: usize = 0;
    while i < user_avg_rois.len()
        invariant
            i <= user_avg_rois@.len(),
            entries@.len() == i,
            forall|k: int| 0 <= k < i ==> #[trigger] entries@[k] == (k as usize, user_avg_rois@[k]),
        decreases user_avg_rois.len() - i,
    {
        entries.push((i, user_avg_rois[i]));
        i += 1;
    }
    assert(entries@ =~= indexed(user_avg_rois@));
    let ranks: usize = contest.winner_reward_allocation.len();
    let winners: Vec<(usize, Roi)> = find_top_n(&entries, ranks);
    proof {
        lemma_winners_of(user_avg_rois@, ranks as nat);
    }
    let mut winner_ids: Vec<u32> = Vec::with_capacity(winners.len());
    let mut k: usize = 0;
    while k < winners.len()
        invariant
            k <= winners@.len(),
            winner_ids@.len() == k,
            forall|j: int| 0 <= j < k ==> #[trigger] winner_ids@[j] == winners@[j].0 as u32,
        decreases winners.len() - k,
    {
        winner_ids.push(winners[k].0 as u32);
        k += 1;
    }
    assert(winner_ids@ =~= winners_of(user_avg_rois@, ranks as nat));
    contest.token_rois = token_rois;
    contest.winner_ids = winner_ids;
    contest.is_resolved = true;
}

/// Why a resolution on the primary ledger is refused, if it is: the contest is
/// on loan, `resolve_guard` refuses, or the settlement data is incomplete.
pub open spec fn resolve_refusal(
    ctx: ResolveTokenDraftContest,
    now: u64,
    token_rois: Seq<Roi>,
    user_avg_rois: Seq<Roi>,
) -> Option<ContestError> {
    if ctx.contest.is_delegated {
        Some(ContestError::Delegated)
    } else if resolve_guard(ctx.contest, now) is Some {
        resolve_guard(ctx.contest, now)
    } else if !is_settlement_data(ctx.contest, ctx.feeds@, token_rois, user_avg_rois) {
        Some(ContestError::InvalidFeeds)
    } else {
        None
    }
}

/// Whether `after` is what an accepted resolution with the given returns
/// makes of `before`, and `transfer` what it asks for: the contest is
/// resolved, no other record has changed, and the protocol's fee is to go from
/// the escrow to the fee account.
pub open spec fn is_resolved_from(
    before: ResolveTokenDraftContest,
    after: ResolveTokenDraftContest,
    token_rois: Seq<Roi>,
    user_avg_rois: Seq<Roi>,
    transfer: Transfer,
) -> bool {
    &&& transfer.from == Party::Escrow
    &&& transfer.to == Party::FeeVault
    &&& transfer.authority == Party::Escrow
    &&& transfer.amount == resolution_fee(before.contest, before.contest_metadata)
    &&& is_resolution_of(before.contest, after.contest, token_rois, user_avg_rois)
    &&& after.signer == before.signer
    &&& after.contest_key == before.contest_key
    &&& after.contest_credits == before.contest_credits
    &&& after.contest_metadata == before.contest_metadata
    &&& after.feeds == before.feeds
}

/// A contest is resolved once: after an accepted resolution, every further
/// resolution at or after the end of the contest is refused as
/// `AlreadyResolved`, whatever returns and price updates it is given.
pub proof fn lemma_resolve_exactly_once(
    before: ResolveTokenDraftContest,
    after: ResolveTokenDraftContest,
    first_now: u64,
    first_token_rois: Seq<Roi>,
    first_user_avg_rois: Seq<Roi>,
    transfer: Transfer,
    later: ResolveTokenDraftContest,
    now: u64,
    token_rois: Seq<Roi>,
    user_avg_rois: Seq<Roi>,
)
    requires
        resolve_refusal(before, first_now, first_token_rois, first_user_avg_rois) is None,
        is_resolved_from(before, after, first_token_rois, first_user_avg_rois, transfer),
        later.contest == after.contest,
        now >= after.contest.end_time,
    ensures
        resolve_refusal(later, now, token_rois, user_avg_rois) == Some(
            ContestError::AlreadyResolved,
        ),
{
}

/// A resolved contest is not resolved again: not on loan, at or after the end
/// of the contest, the resolution is refused as `AlreadyResolved`, whatever it
/// is given.
pub proof fn lemma_resolved_is_refused(
    ctx: ResolveTokenDraftContest,
    now: u64,
    token_rois: Seq<Roi>,
    user_avg_rois: Seq<Roi>,
)
    requires
        ctx.wf(),
        ctx.contest.is_resolved,
        !ctx.contest.is_delegated,
        now >= ctx.contest.end_time,
    ensures
        resolve_refusal(ctx, now, token_rois, user_avg_rois) == Some(
            ContestError::AlreadyResolved,
        ),
{
}

/// Resolves the contest at the time `now`. `token_rois` holds the return of
/// each asset between its start price and its settlement price,
/// `user_avg_rois` the weighted return of each entry, in the order of the
/// entries' indices.
///
/// A contest that has ended with its start prices captured, and has not been
/// resolved, becomes resolved: the returns are stored and the best entries
/// become the winners, one for each rank of the reward table. The result asks
/// for the transfer of the protocol's fee from the escrow to the fee account.
/// A refused resolution changes nothing.
pub fn resolve_token_draft_contest(
    ctx: &mut ResolveTokenDraftContest,
    now: u64,
    token_rois: Vec<Roi>,
    user_avg_rois: Vec<Roi>,
) -> (res: Result<Transfer, ContestError>)
    requires
        old(ctx).wf(),
    ensures
        final(ctx).wf(),
        match res {
            Ok(transfer) => resolve_refusal(*old(ctx), now, token_rois@, user_avg_rois@) is None
                && is_resolved_from(
                *old(ctx),
                *final(ctx),
                token_rois@,
                user_avg_rois@,
                transfer,
            ),
            Err(e) => resolve_refusal(*old(ctx), now, token_rois@, user_avg_rois@) == Some(e)
                && *final(ctx) == *old(ctx),
        },
{
    if ctx.contest.is_delegated {
        return Err(ContestError::Delegated);
    }
    match settlement_prices(&ctx.contest, now, &ctx.feeds) {
        Ok(_) => {},
        Err(e) => {
            return Err(e);
        },
    }
    if token_rois.len() != ctx.contest.token_feed_ids.len() || user_avg_rois.len()
        != ctx.contest.num_entries as usize {
        return Err(ContestError::InvalidFeeds);
    }
    let pool: u64 = ctx.contest.pool_amount();
    let fee: u64 = compute_fee_amount(ctx.contest_metadata.token_draft_contest_fee_percent, pool);
    settle(&mut ctx.contest, token_rois, &user_avg_rois);
    Ok(Transfer { from: Party::Escrow, to: Party::FeeVault, authority: Party::Escrow, amount: fee })
}

} // verus!
