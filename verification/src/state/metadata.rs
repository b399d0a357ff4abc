use vstd::prelude::*;

verus! {

/// Fee percentages are below this bound.
pub const FEE_PERCENT_BOUND: u8 = 100;

/// The global counters: the id that the next contest gets, the fee that the
/// protocol takes of every pool, and the fees that have accrued for the
/// administrator and have not been withdrawn. There is one such record.
///
/// A resolution on the primary ledger sends its fee to the fee account at
/// once and accrues nothing. A resolution on the delegated venue moves no
/// value: it accrues its fee here, and the value stays in the escrow until the
/// administrator withdraws it.
#[derive(Clone, Copy, Debug, PartialEq, Eq, Structural)]
pub struct ContestMetadata {
    pub token_draft_contest_count: u64,
    pub token_draft_contest_fee_percent: u8,
    pub token_draft_contest_fee_amount: u64,
    /// Whether the record is on loan to the delegated venue.
    pub is_delegated: bool,
}

impl ContestMetadata {
    /// The fee is a percentage from 0 to 99.
    pub open spec fn wf(self) -> bool {
        self.token_draft_contest_fee_percent < FEE_PERCENT_BOUND
    }

    /// Computes `wf`.
    pub fn is_well_formed(&self) -> (valid: bool)
        ensures
            valid == self.wf(),
    {
        self.token_draft_contest_fee_percent < FEE_PERCENT_BOUND
    }
}

} // verus!
