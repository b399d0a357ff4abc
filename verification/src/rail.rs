//! What the engine asks of the value-transfer rail.

use vstd::prelude::*;

verus! {

/// An account of the value-transfer rail, named by the part it plays in an
/// operation.
#[derive(Clone, Copy, Debug, PartialEq, Eq, Structural)]
pub enum Party {
    /// The account of the participant who calls the operation.
    Participant,
    /// The escrow that holds the entry fees of the contests, and with them
    /// the fees that have accrued and have not been withdrawn.
    Escrow,
    /// The account that collects the fees of the resolutions on the primary
    /// ledger.
    FeeVault,
    /// The account that the administrator withdraws to.
    Administrator,
}

/// A transfer that an operation asks of the rail: exactly `amount`, all of it
/// or nothing. The records that the operation has changed are stored only once
/// the rail has carried the transfer out.
#[derive(Clone, Copy, Debug, PartialEq, Eq, Structural)]
pub struct Transfer {
    pub from: Party,
    pub to: Party,
    pub authority: Party,
    pub amount: u64,
}

} // verus!
