use crate::pubkey::Pubkey;
use vstd::prelude::*;

verus! {

/// The global configuration: who administers the protocol, and in which asset
/// fees and rewards are settled. There is one such record.
#[derive(Clone, Copy, Debug, PartialEq, Eq)]
pub struct Config {
    pub admin: Pubkey,
    pub mint: Pubkey,
    pub is_initialized: bool,
}

impl Config {
    /// A stored configuration has been initialized.
    pub open spec fn wf(self) -> bool {
        self.is_initialized
    }

    /// Computes `wf`.
    pub fn is_well_formed(&self) -> (valid: bool)
        ensures
            valid == self.wf(),
    {
        self.is_initialized
    }
}

} // verus!
