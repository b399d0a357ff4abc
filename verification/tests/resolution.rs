use draft_contest::errors::ContestError;
use draft_contest::instructions::resolve::check_resolvable;
use draft_contest::instructions::{
    claim_token_draft_contest, resolve_token_draft_contest, resolve_token_draft_contest_er,
    settlement_prices, ClaimTokenDraftContest, ResolveTokenDraftContest,
    ResolveTokenDraftContestEr,
};
use draft_contest::oracle::{Price, PriceUpdate};
use draft_contest::pubkey::Pubkey;
use draft_contest::rail::{Party, Transfer};
use draft_contest::roi::Roi;
use draft_contest::state::config::Config;
use draft_contest::state::contest::{check_distinct_entries, ContestState, TokenDraftContest};
use draft_contest::state::credit::TokenDraftContestCredits;
use draft_contest::state::entry::TokenDraftContestEntry;
use draft_contest::state::metadata::ContestMetadata;

fn key(byte: u8) -> Pubkey {
    Pubkey::new_from_array([byte; 32])
}

fn roi(value: f64) -> Roi {
    Roi::from_bits(value.to_bits())
}

fn update(feed: u8, price: i64) -> PriceUpdate {
    PriceUpdate { feed_id: key(feed), price, conf: 0, exponent: -2, publish_time: 210 }
}

fn start_price(price: i64) -> Price {
    Price { price, conf: 0, exponent: -2, publish_time: 100 }
}

fn metadata() -> ContestMetadata {
    ContestMetadata {
        token_draft_contest_count: 8,
        token_draft_contest_fee_percent: 10,
        token_draft_contest_fee_amount: 0,
        is_delegated: false,
    }
}

/// Four entries at a fee of 10, two assets, rewards of 70 and 30 percent.
fn ended_contest() -> TokenDraftContest {
    TokenDraftContest {
        id: 7,
        creator: key(1),
        start_time: 100,
        end_time: 200,
        entry_fee: 10,
        max_entries: 4,
        num_entries: 4,
        token_feed_ids: vec![key(11), key(12)],
        token_start_prices: vec![start_price(2_500), start_price(2_000)],
        token_rois: vec![],
        winner_reward_allocation: vec![70, 30],
        winner_ids: vec![],
        is_resolved: false,
        is_delegated: false,
    }
}

fn ledger() -> TokenDraftContestCredits {
    TokenDraftContestCredits {
        contest_key: key(100),
        credit_allocations: vec![60, 40, 100, 0, 0, 100, 50, 50],
    }
}

fn resolve_ctx() -> ResolveTokenDraftContest {
    ResolveTokenDraftContest {
        signer: key(1),
        contest_key: key(100),
        contest: ended_contest(),
        contest_credits: ledger(),
        contest_metadata: metadata(),
        feeds: vec![Some(update(11, 2_750)), Some(update(12, 1_900))],
    }
}

fn resolve_er_ctx() -> ResolveTokenDraftContestEr {
    let mut contest = ended_contest();
    contest.is_delegated = true;
    let mut contest_metadata = metadata();
    contest_metadata.is_delegated = true;
    contest_metadata.token_draft_contest_fee_amount = 6;
    ResolveTokenDraftContestEr {
        signer: key(1),
        contest_metadata,
        contest_key: key(100),
        contest,
        contest_credits: ledger(),
        feeds: vec![Some(update(11, 2_750)), Some(update(12, 1_900))],
    }
}

fn token_rois() -> Vec<Roi> {
    vec![roi(10.0), roi(-5.0)]
}

/// The weighted returns of the four entries of `ledger` under `token_rois`.
fn user_avg_rois() -> Vec<Roi> {
    vec![roi(4.0), roi(10.0), roi(-5.0), roi(2.5)]
}

fn resolved_contest() -> TokenDraftContest {
    let mut contest = ended_contest();
    contest.token_rois = token_rois();
    contest.winner_ids = vec![1, 0];
    contest.is_resolved = true;
    contest
}

fn claim_ctx(id: u32, signer: u8) -> ClaimTokenDraftContest {
    ClaimTokenDraftContest {
        signer: key(signer),
        config: Config { admin: key(1), mint: key(2), is_initialized: true },
        contest_key: key(100),
        contest: resolved_contest(),
        contest_metadata: metadata(),
        contest_entry: TokenDraftContestEntry {
            user: key(signer),
            id,
            contest_key: key(100),
            credit_allocation: vec![60, 40],
            has_claimed: false,
        },
    }
}

fn payout(amount: u64) -> Transfer {
    Transfer { from: Party::Escrow, to: Party::Participant, authority: Party::Escrow, amount }
}

#[test]
fn resolve_fixes_returns_and_winners_and_asks_for_the_fee() {
    let mut ctx = resolve_ctx();
    assert!(ctx.is_well_formed());
    let res = resolve_token_draft_contest(&mut ctx, 200, token_rois(), user_avg_rois());
    assert_eq!(
        res,
        Ok(Transfer {
            from: Party::Escrow,
            to: Party::FeeVault,
            authority: Party::Escrow,
            amount: 4
        })
    );
    assert!(ctx.is_well_formed());
    assert_eq!(ctx.contest, resolved_contest());
    assert_eq!(ctx.contest.state(200), ContestState::Resolved);
    assert_eq!(ctx.contest_metadata, metadata());
    assert_eq!(ctx.contest_credits, ledger());
}

#[test]
fn resolve_twice_is_refused_and_keeps_the_first_outcome() {
    let mut ctx = resolve_ctx();
    assert!(resolve_token_draft_contest(&mut ctx, 200, token_rois(), user_avg_rois()).is_ok());
    let before = ctx.clone();
    let other_rois = vec![roi(-1.0), roi(-1.0)];
    let other_avg = vec![roi(0.0), roi(-7.0), roi(9.0), roi(8.0)];
    for now in [200u64, 201, 1_000_000] {
        let res = resolve_token_draft_contest(&mut ctx, now, other_rois.clone(), other_avg.clone());
        assert_eq!(res, Err(ContestError::AlreadyResolved));
        assert_eq!(ctx, before);
        assert_eq!(ctx.contest.winner_ids, vec![1, 0]);
        assert_eq!(ctx.contest.token_rois, token_rois());
    }
}

#[test]
fn resolve_needs_the_start_prices() {
    let mut ctx = resolve_ctx();
    ctx.contest.token_start_prices = vec![];
    let before = ctx.clone();
    for now in [0u64, 200, 500] {
        let res = resolve_token_draft_contest(&mut ctx, now, token_rois(), user_avg_rois());
        assert_eq!(res, Err(ContestError::ContestPriceNotSet));
        assert_eq!(ctx, before);
    }
}

#[test]
fn resolve_needs_the_contest_to_have_ended() {
    for now in [0u64, 100, 199] {
        let mut ctx = resolve_ctx();
        let before = ctx.clone();
        let res = resolve_token_draft_contest(&mut ctx, now, token_rois(), user_avg_rois());
        assert_eq!(res, Err(ContestError::ContestNotEnded));
        assert_eq!(ctx, before);
    }
}

#[test]
fn resolve_needs_every_settlement_sample() {
    let mut ctx = resolve_ctx();
    ctx.feeds = vec![Some(update(11, 2_750)), None];
    let before = ctx.clone();
    let res = resolve_token_draft_contest(&mut ctx, 200, token_rois(), user_avg_rois());
    assert_eq!(res, Err(ContestError::InvalidFeeds));
    assert_eq!(ctx, before);
    ctx.feeds = vec![Some(update(12, 1_900)), Some(update(11, 2_750))];
    let res = resolve_token_draft_contest(&mut ctx, 200, token_rois(), user_avg_rois());
    assert_eq!(res, Err(ContestError::InvalidFeeds));
}

#[test]
fn resolve_needs_a_return_for_every_asset_and_every_entry() {
    let mut ctx = resolve_ctx();
    let before = ctx.clone();
    let res = resolve_token_draft_contest(&mut ctx, 200, vec![roi(10.0)], user_avg_rois());
    assert_eq!(res, Err(ContestError::InvalidFeeds));
    let res = resolve_token_draft_contest(&mut ctx, 200, token_rois(), vec![roi(4.0)]);
    assert_eq!(res, Err(ContestError::InvalidFeeds));
    let mut five = user_avg_rois();
    five.push(roi(1.0));
    let res = resolve_token_draft_contest(&mut ctx, 200, token_rois(), five);
    assert_eq!(res, Err(ContestError::InvalidFeeds));
    assert_eq!(ctx, before);
}

#[test]
fn resolve_refuses_a_contest_on_loan() {
    let mut ctx = resolve_ctx();
    ctx.contest.is_delegated = true;
    let before = ctx.clone();
    let res = resolve_token_draft_contest(&mut ctx, 200, token_rois(), user_avg_rois());
    assert_eq!(res, Err(ContestError::Delegated));
    assert_eq!(ctx, before);
}

#[test]
fn resolve_with_fewer_entries_than_ranks_names_them_all() {
    let mut ctx = resolve_ctx();
    ctx.contest.num_entries = 1;
    ctx.contest_credits.credit_allocations = vec![60, 40];
    assert!(ctx.is_well_formed());
    let res = resolve_token_draft_contest(&mut ctx, 300, token_rois(), vec![roi(4.0)]);
    assert_eq!(res.map(|t| t.amount), Ok(1));
    assert_eq!(ctx.contest.winner_ids, vec![0]);
    assert!(ctx.is_well_formed());
}

#[test]
fn resolve_without_entries_names_no_winner() {
    let mut ctx = resolve_ctx();
    ctx.contest.num_entries = 0;
    ctx.contest_credits.credit_allocations = vec![];
    let res = resolve_token_draft_contest(&mut ctx, 300, token_rois(), vec![]);
    assert_eq!(res.map(|t| t.amount), Ok(0));
    assert!(ctx.contest.winner_ids.is_empty());
    assert!(ctx.contest.is_resolved);
}

#[test]
fn resolve_breaks_ties_by_the_lower_index() {
    let mut ctx = resolve_ctx();
    let avg = vec![roi(3.0), roi(3.0), roi(3.0), roi(3.0)];
    assert!(resolve_token_draft_contest(&mut ctx, 200, token_rois(), avg).is_ok());
    assert_eq!(ctx.contest.winner_ids, vec![0, 1]);
    let mut ctx = resolve_ctx();
    let avg = vec![roi(1.0), roi(3.0), roi(7.0), roi(3.0)];
    assert!(resolve_token_draft_contest(&mut ctx, 200, token_rois(), avg).is_ok());
    assert_eq!(ctx.contest.winner_ids, vec![2, 1]);
}

#[test]
fn resolvable_guards_come_in_order() {
    let mut contest = ended_contest();
    assert_eq!(check_resolvable(&contest, 200), Ok(()));
    assert_eq!(check_resolvable(&contest, 199), Err(ContestError::ContestNotEnded));
    contest.is_resolved = true;
    assert_eq!(check_resolvable(&contest, 199), Err(ContestError::ContestNotEnded));
    assert_eq!(check_resolvable(&contest, 200), Err(ContestError::AlreadyResolved));
    contest.token_start_prices = vec![];
    assert_eq!(check_resolvable(&contest, 200), Err(ContestError::ContestPriceNotSet));
}

#[test]
fn settlement_prices_are_read_once_the_contest_can_be_resolved() {
    let ctx = resolve_ctx();
    assert_eq!(
        settlement_prices(&ctx.contest, 200, &ctx.feeds),
        Ok(vec![
            Price { price: 2_750, conf: 0, exponent: -2, publish_time: 210 },
            Price { price: 1_900, conf: 0, exponent: -2, publish_time: 210 },
        ])
    );
    assert_eq!(
        settlement_prices(&ctx.contest, 199, &ctx.feeds),
        Err(ContestError::ContestNotEnded)
    );
    assert_eq!(
        settlement_prices(&ctx.contest, 200, &vec![None, None]),
        Err(ContestError::InvalidFeeds)
    );
    let zero = vec![Some(update(11, 0)), Some(update(12, 1_900))];
    assert_eq!(settlement_prices(&ctx.contest, 200, &zero).map(|p| p[0].price), Ok(0));
}

#[test]
fn resolve_er_accrues_the_fee_in_the_counters() {
    let mut ctx = resolve_er_ctx();
    assert!(ctx.is_well_formed());
    let res = resolve_token_draft_contest_er(&mut ctx, 200, token_rois(), user_avg_rois());
    assert_eq!(res, Ok(4));
    assert!(ctx.is_well_formed());
    assert_eq!(ctx.contest_metadata.token_draft_contest_fee_amount, 10);
    assert_eq!(ctx.contest_metadata.token_draft_contest_count, 8);
    assert!(ctx.contest_metadata.is_delegated);
    let mut expected = resolved_contest();
    expected.is_delegated = true;
    assert_eq!(ctx.contest, expected);

    let before = ctx.clone();
    let res = resolve_token_draft_contest_er(&mut ctx, 201, token_rois(), user_avg_rois());
    assert_eq!(res, Err(ContestError::AlreadyResolved));
    assert_eq!(ctx, before);
}

#[test]
fn resolve_er_needs_both_records_on_loan() {
    let mut ctx = resolve_er_ctx();
    ctx.contest.is_delegated = false;
    let before = ctx.clone();
    let res = resolve_token_draft_contest_er(&mut ctx, 200, token_rois(), user_avg_rois());
    assert_eq!(res, Err(ContestError::NotDelegated));
    assert_eq!(ctx, before);
    let mut ctx = resolve_er_ctx();
    ctx.contest_metadata.is_delegated = false;
    let res = resolve_token_draft_contest_er(&mut ctx, 200, token_rois(), user_avg_rois());
    assert_eq!(res, Err(ContestError::NotDelegated));
}

#[test]
fn resolve_er_guards_as_on_the_primary_ledger() {
    let mut ctx = resolve_er_ctx();
    let before = ctx.clone();
    let res = resolve_token_draft_contest_er(&mut ctx, 199, token_rois(), user_avg_rois());
    assert_eq!(res, Err(ContestError::ContestNotEnded));
    let res = resolve_token_draft_contest_er(&mut ctx, 200, token_rois(), vec![]);
    assert_eq!(res, Err(ContestError::InvalidFeeds));
    assert_eq!(ctx, before);
    ctx.contest.token_start_prices = vec![];
    let res = resolve_token_draft_contest_er(&mut ctx, 200, token_rois(), user_avg_rois());
    assert_eq!(res, Err(ContestError::ContestPriceNotSet));
}

#[test]
fn resolve_er_refuses_fees_beyond_u64() {
    let mut ctx = resolve_er_ctx();
    ctx.contest_metadata.token_draft_contest_fee_amount = u64::MAX - 3;
    let before = ctx.clone();
    let res = resolve_token_draft_contest_er(&mut ctx, 200, token_rois(), user_avg_rois());
    assert_eq!(res, Err(ContestError::AmountOverflow));
    assert_eq!(ctx, before);
    ctx.contest_metadata.token_draft_contest_fee_amount = u64::MAX - 4;
    let res = resolve_token_draft_contest_er(&mut ctx, 200, token_rois(), user_avg_rois());
    assert_eq!(res, Ok(4));
    assert_eq!(ctx.contest_metadata.token_draft_contest_fee_amount, u64::MAX);
}

#[test]
fn winners_are_paid_their_share_of_the_pool_after_the_fee() {
    let mut first = claim_ctx(1, 21);
    assert!(first.is_well_formed());
    assert_eq!(claim_token_draft_contest(&mut first), Ok(payout(25)));
    assert!(first.contest_entry.has_claimed);
    assert!(first.is_well_formed());
    let mut second = claim_ctx(0, 20);
    assert_eq!(claim_token_draft_contest(&mut second), Ok(payout(10)));
    assert_eq!(second.contest, resolved_contest());
    assert_eq!(second.contest_metadata, metadata());
    assert_eq!(second.contest_entry.credit_allocation, vec![60, 40]);
    assert_eq!(second.contest_entry.id, 0);
}

#[test]
fn claim_twice_pays_once() {
    let mut ctx = claim_ctx(1, 21);
    assert_eq!(claim_token_draft_contest(&mut ctx), Ok(payout(25)));
    let before = ctx.clone();
    assert_eq!(claim_token_draft_contest(&mut ctx), Err(ContestError::AlreadyClaimed));
    assert_eq!(ctx, before);
    assert_eq!(claim_token_draft_contest(&mut ctx), Err(ContestError::AlreadyClaimed));
}

#[test]
fn claim_of_a_losing_entry_is_refused() {
    for id in [2u32, 3] {
        let mut ctx = claim_ctx(id, 22);
        assert!(ctx.is_well_formed());
        let before = ctx.clone();
        assert_eq!(claim_token_draft_contest(&mut ctx), Err(ContestError::NotWinner));
        assert_eq!(ctx, before);
        assert!(!ctx.contest_entry.has_claimed);
    }
}

#[test]
fn claim_of_another_participants_entry_is_refused() {
    let mut ctx = claim_ctx(1, 21);
    ctx.signer = key(33);
    let before = ctx.clone();
    assert_eq!(claim_token_draft_contest(&mut ctx), Err(ContestError::NotWinner));
    assert_eq!(ctx, before);
}

#[test]
fn claim_before_resolution_is_refused() {
    let mut ctx = claim_ctx(1, 21);
    ctx.contest = ended_contest();
    assert!(ctx.is_well_formed());
    let before = ctx.clone();
    assert_eq!(claim_token_draft_contest(&mut ctx), Err(ContestError::ContestNotResolved));
    assert_eq!(ctx, before);
}

#[test]
fn claim_without_fee_and_with_one_rank() {
    let mut ctx = claim_ctx(1, 21);
    ctx.contest_metadata.token_draft_contest_fee_percent = 0;
    ctx.contest.winner_reward_allocation = vec![100];
    ctx.contest.winner_ids = vec![1];
    assert!(ctx.is_well_formed());
    assert_eq!(claim_token_draft_contest(&mut ctx), Ok(payout(40)));
}

#[test]
fn winner_rank_is_the_place_among_the_winners() {
    let contest = resolved_contest();
    assert_eq!(contest.winner_rank(1), Some(0));
    assert_eq!(contest.winner_rank(0), Some(1));
    assert_eq!(contest.winner_rank(2), None);
    assert_eq!(contest.pool_amount(), 40);
}

#[test]
fn contest_from_entry_to_payout() {
    let mut ctx = resolve_ctx();
    let fee = resolve_token_draft_contest(&mut ctx, 250, token_rois(), user_avg_rois()).unwrap();
    let mut paid: u64 = 0;
    for (id, signer) in [(0u32, 20u8), (1, 21), (2, 22), (3, 23)] {
        let mut claim = claim_ctx(id, signer);
        claim.contest = ctx.contest.clone();
        if let Ok(transfer) = claim_token_draft_contest(&mut claim) {
            paid += transfer.amount;
        }
    }
    assert_eq!(fee.amount, 4);
    assert_eq!(paid, 35);
    assert_eq!(ctx.contest.pool_amount() - fee.amount - paid, 1);
}

/// The return of an asset in percent, between two prices.
fn token_roi(start: &Price, settlement: &Price) -> f64 {
    let start_value = start.mantissa() as f64 / start.scale() as f64;
    let settlement_value = settlement.mantissa() as f64 / settlement.scale() as f64;
    ((settlement_value - start_value) / start_value) * 100.0
}

/// The returns of the assets, each weighted with the hundredths allocated to it.
fn weighted_roi(allocation: &[u8], token_rois: &[f64]) -> f64 {
    let mut sum = 0.0;
    for (i, weight) in allocation.iter().enumerate() {
        sum += (*weight as f64 / 100.0) * token_rois[i];
    }
    sum
}

#[test]
fn sixty_forty_of_ten_and_minus_five_percent_is_four_percent() {
    assert_eq!(weighted_roi(&[60, 40], &[10.0, -5.0]), 4.0);
    assert_eq!(roi(weighted_roi(&[60, 40], &[10.0, -5.0])), roi(4.0));
}

#[test]
fn returns_from_prices_and_ledger_rows_decide_the_winners() {
    let mut ctx = resolve_ctx();
    let prices = settlement_prices(&ctx.contest, 200, &ctx.feeds).unwrap();
    let rois: Vec<f64> = ctx
        .contest
        .token_start_prices
        .iter()
        .zip(prices.iter())
        .map(|(start, settlement)| token_roi(start, settlement))
        .collect();
    assert_eq!(rois, vec![10.0, -5.0]);
    let avg: Vec<f64> = (0..ctx.contest.num_entries)
        .map(|id| weighted_roi(&ctx.contest_credits.allocation_of(id, 2).unwrap(), &rois))
        .collect();
    assert_eq!(avg, vec![4.0, 10.0, -5.0, 2.5]);
    let res = resolve_token_draft_contest(
        &mut ctx,
        200,
        rois.iter().map(|v| roi(*v)).collect(),
        avg.iter().map(|v| roi(*v)).collect(),
    );
    assert!(res.is_ok());
    assert_eq!(ctx.contest.winner_ids, vec![1, 0]);
    assert_eq!(ctx.contest.token_rois, vec![roi(10.0), roi(-5.0)]);
}

#[test]
fn winners_are_entries_and_none_wins_twice() {
    assert!(check_distinct_entries(&vec![], 0));
    assert!(check_distinct_entries(&vec![1, 0, 3], 4));
    assert!(!check_distinct_entries(&vec![1, 0, 4], 4));
    assert!(!check_distinct_entries(&vec![1, 0, 1], 4));
    assert!(!check_distinct_entries(&vec![2, 2], 4));
    let mut contest = resolved_contest();
    assert!(contest.is_well_formed());
    contest.winner_ids = vec![1, 1];
    assert!(!contest.is_well_formed());
    contest.winner_ids = vec![1, 4];
    assert!(!contest.is_well_formed());
    contest.winner_ids = vec![1];
    assert!(!contest.is_well_formed());
}
