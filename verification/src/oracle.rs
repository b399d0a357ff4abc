//! Price samples as the oracle posts them, and the reading of one sample for
//! each asset of a contest.

use crate::errors::ContestError;
use crate::pubkey::Pubkey;
use vstd::prelude::*;

verus! {

/// The most decimal places that a price may have: with more of them the scale
/// of the price leaves the range of `u64`.
pub const MAX_PRICE_DECIMALS: i32 = 19;

/// `10^digits`.
pub open spec fn power_of_ten(digits: nat) -> int
    decreases digits,
{
    if digits == 0 {
        1
    } else {
        10 * power_of_ten((digits - 1) as nat)
    }
}

/// Powers of ten are positive and grow with the exponent.
pub proof fn lemma_power_of_ten_grows(low: nat, high: nat)
    requires
        low <= high,
    ensures
        1 <= power_of_ten(low) <= power_of_ten(high),
    decreases high,
{
    if low < high {
        lemma_power_of_ten_grows(low, (high - 1) as nat);
    } else if high > 0 {
        lemma_power_of_ten_grows((low - 1) as nat, (high - 1) as nat);
    }
}

/// A power of ten of up to `MAX_PRICE_DECIMALS` digits fits in a `u64`.
pub proof fn lemma_power_of_ten_fits(digits: nat)
    requires
        digits <= MAX_PRICE_DECIMALS,
    ensures
        1 <= power_of_ten(digits) <= 10_000_000_000_000_000_000 <= u64::MAX,
{
    lemma_power_of_ten_grows(digits, MAX_PRICE_DECIMALS as nat);
    reveal_with_fuel(power_of_ten, 20);
}

/// A price as the oracle states it: `price × 10^exponent`, give or take
/// `conf × 10^exponent`, observed at `publish_time`.
#[derive(Clone, Copy, Debug, PartialEq, Eq, Structural)]
pub struct Price {
    pub price: i64,
    pub conf: u64,
    pub exponent: i32,
    pub publish_time: i64,
}

impl Price {
    /// Whether the price can be used as a quotient of two `u64`: it is not
    /// negative, and it has between 0 and `MAX_PRICE_DECIMALS` decimal places.
    pub open spec fn is_usable(self) -> bool {
        self.price >= 0 && -MAX_PRICE_DECIMALS <= self.exponent <= 0
    }

    /// Whether the price can start a contest: it is usable and not zero, so
    /// that a return on it is defined.
    pub open spec fn is_start_price(self) -> bool {
        self.is_usable() && self.price != 0
    }

    /// Computes `is_usable`.
    pub fn check_usable(&self) -> (usable: bool)
        ensures
            usable == self.is_usable(),
    {
        self.price >= 0 && -MAX_PRICE_DECIMALS <= self.exponent && self.exponent <= 0
    }

    /// The numerator of a usable price: the price is `mantissa / scale`.
    pub fn mantissa(&self) -> (mantissa: u64)
        requires
            self.is_usable(),
        ensures
            mantissa == self.price,
    {
        self.price as u64
    }

    /// The denominator of a usable price: ten to the number of its decimal
    /// places.
    pub fn scale(&self) -> (scale: u64)
        requires
            self.is_usable(),
        ensures
            scale == power_of_ten((-self.exponent) as nat),
    {
        let digits: i32 = -self.exponent;
        let mut scale: u64 = 1;
        let mut i: i32 = 0;
        while i < digits
            invariant
                0 <= i <= digits <= MAX_PRICE_DECIMALS,
                scale == power_of_ten(i as nat),
            decreases digits - i,
        {
            proof {
                lemma_power_of_ten_fits((i + 1) as nat);
            }
            scale = scale * 10;
            i += 1;
        }
        scale
    }
}

/// A price update as the oracle posts it: the feed that it belongs to, and the
/// price.
#[derive(Clone, Copy, Debug, PartialEq, Eq)]
pub struct PriceUpdate {
    pub feed_id: Pubkey,
    pub price: i64,
    pub conf: u64,
    pub exponent: i32,
    pub publish_time: i64,
}

impl PriceUpdate {
    /// The price of the update where it belongs to `feed_id`, and nothing where
    /// it belongs to another feed. Neither the age of the price nor its
    /// confidence is looked at.
    pub open spec fn price_for(self, feed_id: Pubkey) -> Option<Price> {
        if self.feed_id == feed_id {
            Some(
                Price {
                    price: self.price,
                    conf: self.conf,
                    exponent: self.exponent,
                    publish_time: self.publish_time,
                },
            )
        } else {
            None
        }
    }

    /// Computes `price_for`.
    pub fn get_price_unchecked(&self, feed_id: &Pubkey) -> (price: Option<Price>)
        ensures
            price == self.price_for(*feed_id),
    {
        if self.feed_id == *feed_id {
            Some(
                Price {
                    price: self.price,
                    conf: self.conf,
                    exponent: self.exponent,
                    publish_time: self.publish_time,
                },
            )
        } else {
            None
        }
    }
}

/// The sample of asset `i`: the price of the `i`-th update, where there is one
/// and it belongs to the `i`-th feed.
pub open spec fn sample_at(
    feed_ids: Seq<Pubkey>,
    feeds: Seq<Option<PriceUpdate>>,
    i: int,
) -> Option<Price> {
    if 0 <= i < feed_ids.len() && i < feeds.len() {
        match feeds[i] {
            Some(update) => update.price_for(feed_ids[i]),
            None => None,
        }
    } else {
        None
    }
}

/// Whether `prices` holds, asset by asset, the samples that `feeds` gives for
/// the feeds `feed_ids`, each of them usable.
pub open spec fn are_samples_of(
    prices: Seq<Price>,
    feed_ids: Seq<Pubkey>,
    feeds: Seq<Option<PriceUpdate>>,
) -> bool {
    &&& prices.len() == feed_ids.len()
    &&& forall|i: int|
        0 <= i < feed_ids.len() ==> sample_at(feed_ids, feeds, i) == Some(#[trigger] prices[i])
            && prices[i].is_usable()
}

/// Whether `feeds` gives a usable sample for every one of the feeds `feed_ids`.
pub open spec fn covers_all_feeds(feed_ids: Seq<Pubkey>, feeds: Seq<Option<PriceUpdate>>) -> bool {
    forall|i: int|
        0 <= i < feed_ids.len() ==> match #[trigger] sample_at(feed_ids, feeds, i) {
            Some(price) => price.is_usable(),
            None => false,
        }
}

/// Whether `feeds` holds an update at the place of every one of `count` assets.
pub open spec fn has_feed_for_each(feeds: Seq<Option<PriceUpdate>>, count: nat) -> bool {
    forall|i: int| 0 <= i < count ==> i < feeds.len() && (#[trigger] feeds[i]) is Some
}

/// Computes `has_feed_for_each`.
pub fn check_feeds_present(feeds: &Vec<Option<PriceUpdate>>, count: usize) -> (present: bool)
    ensures
        present == has_feed_for_each(feeds@, count as nat),
{
    if feeds.len() < count {
        proof {
            if count > 0 && has_feed_for_each(feeds@, count as nat) {
                assert(feeds@[count - 1] is Some);
            }
        }
        return false;
    }
    let mut i: usize = 0;
    while i < count
        invariant
            i <= count <= feeds.len(),
            forall|k: int| 0 <= k < i ==> (#[trigger] feeds@[k]) is Some,
        decreases count - i,
    {
        if feeds[i].is_none() {
            return false;
        }
        i += 1;
    }
    true
}

/// Reads the sample of every asset: the prices, asset by asset, where `feeds`
/// covers all the feeds, and `InvalidFeeds` where an update is absent, belongs
/// to another feed or holds a price that is not usable.
pub fn read_feed_prices(feed_ids: &Vec<Pubkey>, feeds: &Vec<Option<PriceUpdate>>) -> (res: Result<
    Vec<Price>,
    ContestError,
>)
    ensures
        match res {
            Ok(prices) => are_samples_of(prices@, feed_ids@, feeds@),
            Err(e) => e == ContestError::InvalidFeeds && !covers_all_feeds(feed_ids@, feeds@),
        },
        res is Ok <==> covers_all_feeds(feed_ids@, feeds@),
{
    let mut prices: Vec<Price> = Vec::new();
    let mut i: usize = 0;
    while i < feed_ids.len()
        invariant
            i <= feed_ids.len(),
            prices@.len() == i,
            forall|k: int|
                0 <= k < i ==> sample_at(feed_ids@, feeds@, k) == Some(#[trigger] prices@[k])
                    && prices@[k].is_usable(),
        decreases feed_ids.len() - i,
    {
        if i >= feeds.len() {
            assert(sample_at(feed_ids@, feeds@, i as int) is None);
            return Err(ContestError::InvalidFeeds);
        }
        let sample: Option<Price> = match &feeds[i] {
            Some(update) => update.get_price_unchecked(&feed_ids[i]),
            None => None,
        };
        assert(sample == sample_at(feed_ids@, feeds@, i as int));
        match sample {
            Some(price) => {
                if !price.check_usable() {
                    return Err(ContestError::InvalidFeeds);
                }
                prices.push(price);
            },
            None => {
                return Err(ContestError::InvalidFeeds);
            },
        }
        i += 1;
    }
    proof {
        assert forall|k: int| 0 <= k < feed_ids@.len() implies match #[trigger] sample_at(
            feed_ids@,
            feeds@,
            k,
        ) {
            Some(price) => price.is_usable(),
            None => false,
        } by {
            assert(sample_at(feed_ids@, feeds@, k) == Some(prices@[k]));
        }
    }
    Ok(prices)
}

} // verus!
