//! Why operations are refused.

use vstd::prelude::*;

verus! {

/// Why an administrative operation was refused.
#[derive(Clone, Copy, Debug, PartialEq, Eq, Structural)]
pub enum ConfigError {
    /// The caller is not the configured administrator.
    Unauthorized,
    /// The global records exist already.
    AlreadyInitialized,
    /// The fee percentage is not below 100.
    InvalidFeePercent,
    /// The global counters are on loan to the delegated venue.
    Delegated,
}

/// Why a contest operation was refused. A refused operation changes nothing.
#[derive(Clone, Copy, Debug, PartialEq, Eq, Structural)]
pub enum ContestError {
    InvalidStartTime,
    /// The window does not start in the future, or does not end after it starts.
    InvalidDuration,
    ContestStillActive,
    InsufficientAmount,
    /// The entry has been paid out already.
    AlreadyClaimed,
    /// A contest needs between one and `MAX_TOKEN_PER_DRAFT` assets.
    InvalidDraftTokenCount,
    /// A price sample that the operation needs is absent or unusable.
    InvalidFeeds,
    /// The credit allocation does not have one weight per asset, or its weights
    /// do not sum to `TOTAL_CREDIT_PER_CONTEST`.
    InvalidDraftTokenDistribution,
    /// Entries are accepted only before the contest starts.
    EntryClosed,
    /// The contest holds `max_entries` entries already.
    AlreadyFull,
    /// The contest window has not closed yet.
    ContestNotEnded,
    /// Rewards can be claimed only from a resolved contest.
    ContestNotResolved,
    /// The contest has been resolved already.
    AlreadyResolved,
    /// The entry is not among the winners, or is not the caller's.
    NotWinner,
    /// The reward table is not non-increasing, or does not sum to 100.
    InvalidRewardAllocation,
    /// Start prices are captured only once the contest has started.
    ContestNotStarted,
    /// The start prices have not been captured.
    ContestPriceNotSet,
    /// The start prices have been captured already.
    ContestPriceAlreadySet,
    /// A start price of zero admits no return on investment.
    ZeroStartPrice,
    /// The participant holds an entry in this contest already.
    AlreadyEntered,
    /// An amount or a counter would leave the range of its type.
    AmountOverflow,
    /// The record is on loan to the delegated venue.
    Delegated,
    /// The record is not on loan to the delegated venue.
    NotDelegated,
}

} // verus!
