use draft_contest::errors::ContestError;
use draft_contest::oracle::{
    check_feeds_present, read_feed_prices, Price, PriceUpdate, MAX_PRICE_DECIMALS,
};
use draft_contest::pubkey::Pubkey;

fn key(byte: u8) -> Pubkey {
    Pubkey::new_from_array([byte; 32])
}

fn update(feed: u8, price: i64, exponent: i32) -> PriceUpdate {
    PriceUpdate { feed_id: key(feed), price, conf: 3, exponent, publish_time: 1_700_000_000 }
}

fn price(price: i64, exponent: i32) -> Price {
    Price { price, conf: 3, exponent, publish_time: 1_700_000_000 }
}

#[test]
fn pubkeys_compare_by_their_bytes() {
    let mut bytes = [7u8; 32];
    let a = Pubkey::new_from_array(bytes);
    assert_eq!(a, key(7));
    assert_eq!(a.to_bytes(), [7u8; 32]);
    bytes[31] = 8;
    assert_ne!(Pubkey::new_from_array(bytes), a);
    bytes[31] = 7;
    bytes[0] = 0;
    assert_ne!(Pubkey::new_from_array(bytes), a);
}

#[test]
fn price_update_gives_its_price_to_its_own_feed_only() {
    let posted = update(1, 6_543_210_000, -8);
    assert_eq!(posted.get_price_unchecked(&key(1)), Some(price(6_543_210_000, -8)));
    assert_eq!(posted.get_price_unchecked(&key(2)), None);
}

#[test]
fn price_scale_is_a_power_of_ten() {
    assert_eq!(MAX_PRICE_DECIMALS, 19);
    assert_eq!(price(5, 0).scale(), 1);
    assert_eq!(price(5, -1).scale(), 10);
    assert_eq!(price(5, -8).scale(), 100_000_000);
    assert_eq!(price(5, -19).scale(), 10_000_000_000_000_000_000);
    assert_eq!(price(6_543_210_000, -8).mantissa(), 6_543_210_000);
    assert_eq!(price(0, -8).mantissa(), 0);
    assert_eq!(price(i64::MAX, -8).mantissa(), i64::MAX as u64);
}

#[test]
fn price_is_usable_within_its_range() {
    assert!(price(0, 0).check_usable());
    assert!(price(1, -19).check_usable());
    assert!(!price(1, -20).check_usable());
    assert!(!price(1, 1).check_usable());
    assert!(!price(-1, -8).check_usable());
    assert!(!price(i64::MIN, -8).check_usable());
}

#[test]
fn reads_one_price_per_feed() {
    let feed_ids = vec![key(1), key(2)];
    let feeds = vec![Some(update(1, 100, -2)), Some(update(2, 0, -8)), None];
    assert_eq!(read_feed_prices(&feed_ids, &feeds), Ok(vec![price(100, -2), price(0, -8)]));
    assert_eq!(read_feed_prices(&vec![], &vec![]), Ok(vec![]));
}

#[test]
fn refuses_absent_mismatched_and_unusable_samples() {
    let feed_ids = vec![key(1), key(2)];
    let absent = vec![Some(update(1, 100, -2)), None];
    assert_eq!(read_feed_prices(&feed_ids, &absent), Err(ContestError::InvalidFeeds));
    let short = vec![Some(update(1, 100, -2))];
    assert_eq!(read_feed_prices(&feed_ids, &short), Err(ContestError::InvalidFeeds));
    let swapped = vec![Some(update(2, 100, -2)), Some(update(1, 100, -2))];
    assert_eq!(read_feed_prices(&feed_ids, &swapped), Err(ContestError::InvalidFeeds));
    let negative = vec![Some(update(1, 100, -2)), Some(update(2, -1, -2))];
    assert_eq!(read_feed_prices(&feed_ids, &negative), Err(ContestError::InvalidFeeds));
    let positive_exponent = vec![Some(update(1, 100, 1)), Some(update(2, 1, -2))];
    assert_eq!(read_feed_prices(&feed_ids, &positive_exponent), Err(ContestError::InvalidFeeds));
    let too_fine = vec![Some(update(1, 100, -20)), Some(update(2, 1, -2))];
    assert_eq!(read_feed_prices(&feed_ids, &too_fine), Err(ContestError::InvalidFeeds));
}

#[test]
fn feeds_present_for_each_asset() {
    let feeds = vec![Some(update(1, 1, 0)), Some(update(9, 1, 0)), None];
    assert!(check_feeds_present(&feeds, 0));
    assert!(check_feeds_present(&feeds, 2));
    assert!(!check_feeds_present(&feeds, 3));
    assert!(!check_feeds_present(&feeds, 4));
    assert!(!check_feeds_present(&vec![None], 1));
}
