use crate::errors::ContestError;
use crate::instructions::resolve::same_terms;
use crate::oracle::{covers_all_feeds, read_feed_prices, Price, PriceUpdate};
use crate::pubkey::Pubkey;
use crate::state::contest::TokenDraftContest;
use vstd::prelude::*;

verus! {

/// The records that the capture of the start prices works on. `feeds` holds
/// the price update of each asset, at the asset's place.
#[derive(Clone, Debug, PartialEq, Eq)]
pub struct PostTokenDraftContestPrices {
    pub signer: Pubkey,
    pub contest: TokenDraftContest,
    pub feeds: Vec<Option<PriceUpdate>>,
}

impl PostTokenDraftContestPrices {
    /// The contest is well-formed.
    pub open spec fn wf(self) -> bool {
        self.contest.wf()
    }

    /// Computes `wf`.
    pub fn is_well_formed(&self) -> (valid: bool)
        ensures
            valid == self.wf(),
    {
        self.contest.is_well_formed()
    }
}

/// Whether one of the prices is zero.
pub open spec fn has_zero_price(prices: Seq<Price>) -> bool {
    exists|i: int| 0 <= i < prices.len() && (#[trigger] prices[i]).price == 0
}

/// Computes `has_zero_price`.
pub fn check_zero_price(prices: &Vec<Price>) -> (found: bool)
    ensures
        found == has_zero_price(prices@),
{
    let mut i: usize = 0;
    while i < prices.len()
        invariant
            i <= prices@.len(),
            forall|k: int| 0 <= k < i ==> (#[trigger] prices@[k]).price != 0,
        decreases prices.len() - i,
    {
        if prices[i].price == 0 {
            return true;
        }
        i += 1;
    }
    false
}

/// The sample that `feeds` gives for each of the feeds `feed_ids`, where it
/// covers them all.
pub open spec fn samples(feed_ids: Seq<Pubkey>, feeds: Seq<Option<PriceUpdate>>) -> Seq<Price> {
    Seq::new(
        feed_ids.len(),
        |i: int| crate::oracle::sample_at(feed_ids, feeds, i).unwrap(),
    )
}

/// Why the capture of the start prices is refused, if it is. The reasons are
/// tried in this order: the contest is on loan; it has not started at the
/// time `now`; its start prices have been captured before; a sample is absent
/// or unusable; a sample is zero.
pub open spec fn post_prices_refusal(ctx: PostTokenDraftContestPrices, now: u64) -> Option<
    ContestError,
> {
    if ctx.contest.is_delegated {
        Some(ContestError::Delegated)
    } else if now < ctx.contest.start_time {
        Some(ContestError::ContestNotStarted)
    } else if ctx.contest.has_start_prices() {
        Some(ContestError::ContestPriceAlreadySet)
    } else if !covers_all_feeds(ctx.contest.token_feed_ids@, ctx.feeds@) {
        Some(ContestError::InvalidFeeds)
    } else if has_zero_price(samples(ctx.contest.token_feed_ids@, ctx.feeds@)) {
        Some(ContestError::ZeroStartPrice)
    } else {
        None
    }
}

/// Whether `after` is `before` with the start prices `prices` and nothing else
/// changed.
pub open spec fn has_start_prices_set(
    before: TokenDraftContest,
    after: TokenDraftContest,
    prices: Seq<Price>,
) -> bool {
    &&& same_terms(before, after)
    &&& after.num_entries == before.num_entries
    &&& after.token_start_prices@ == prices
    &&& after.token_rois@ == before.token_rois@
    &&& after.winner_ids@ == before.winner_ids@
    &&& after.is_resolved == before.is_resolved
    &&& after.is_delegated == before.is_delegated
}

/// Captures the start price of every asset, once and for all, at or after the
/// start of the contest. The age of a sample is not bounded. A refused capture
/// changes nothing.
pub fn post_token_draft_contest_prices(ctx: &mut PostTokenDraftContestPrices, now: u64) -> (res:
    Result<(), ContestError>)
    requires
        old(ctx).wf(),
    ensures
        final(ctx).wf(),
        match res {
            Ok(_) => {
                &&& post_prices_refusal(*old(ctx), now) is None
                &&& has_start_prices_set(
                    old(ctx).contest,
                    final(ctx).contest,
                    samples(old(ctx).contest.token_feed_ids@, old(ctx).feeds@),
                )
                &&& final(ctx).signer == old(ctx).signer
                &&& final(ctx).feeds == old(ctx).feeds
            },
            Err(e) => post_prices_refusal(*old(ctx), now) == Some(e) && *final(ctx) == *old(ctx),
        },
{
    if ctx.contest.is_delegated {
        return Err(ContestError::Delegated);
    }
    if ctx.contest.is_entry_active(now) {
        return Err(ContestError::ContestNotStarted);
    }
    if ctx.contest.token_start_prices.len() > 0 {
        return Err(ContestError::ContestPriceAlreadySet);
    }
    let prices: Vec<Price> = match read_feed_prices(&ctx.contest.token_feed_ids, &ctx.feeds) {
        Ok(prices) => prices,
        Err(e) => {
            return Err(e);
        },
    };
    assert(prices@ =~= samples(ctx.contest.token_feed_ids@, ctx.feeds@));
    if check_zero_price(&prices) {
        return Err(ContestError::ZeroStartPrice);
    }
    ctx.contest.token_start_prices = prices;
    Ok(())
}

} // verus!
