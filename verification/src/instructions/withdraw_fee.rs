use crate::errors::ConfigError;
use crate::pubkey::Pubkey;
use crate::rail::{Party, Transfer};
use crate::state::config::Config;
use crate::state::metadata::ContestMetadata;
use vstd::prelude::*;

verus! {

/// The records that a withdrawal of the fees works on.
#[derive(Clone, Copy, Debug, PartialEq, Eq)]
pub struct WithdrawFee {
    pub signer: Pubkey,
    pub config: Config,
    pub contest_metadata: ContestMetadata,
}

/// The transfer that hands the accrued fees to the administrator. The accrued
/// fees are those of the resolutions on the delegated venue, which moves no
/// value: what they count still lies in the escrow, among the entry fees, and
/// is drawn from there.
pub open spec fn fee_withdrawal(metadata: ContestMetadata) -> Transfer {
    Transfer {
        from: Party::Escrow,
        to: Party::Administrator,
        authority: Party::Escrow,
        amount: metadata.token_draft_contest_fee_amount,
    }
}

/// Why a withdrawal is refused, if it is: the caller is not the configured
/// administrator, or the global counters are on loan to the delegated venue.
pub open spec fn withdraw_refusal(ctx: WithdrawFee) -> Option<ConfigError> {
    if ctx.signer != ctx.config.admin {
        Some(ConfigError::Unauthorized)
    } else if ctx.contest_metadata.is_delegated {
        Some(ConfigError::Delegated)
    } else {
        None
    }
}

/// Whether `after` is what an accepted withdrawal makes of `before`, and
/// `transfer` what it asks for: all accrued fees are to go to the
/// administrator, none is left accrued, and nothing else has changed.
pub open spec fn is_withdrawal_from(
    before: WithdrawFee,
    after: WithdrawFee,
    transfer: Transfer,
) -> bool {
    &&& transfer == fee_withdrawal(before.contest_metadata)
    &&& after.contest_metadata == (ContestMetadata {
        token_draft_contest_fee_amount: 0,
        ..before.contest_metadata
    })
    &&& after.signer == before.signer
    &&& after.config == before.config
}

/// Fees are withdrawn once: after an accepted withdrawal none is left accrued,
/// so that a second withdrawal, if nothing has accrued since, moves nothing.
pub proof fn lemma_withdraw_exactly_once(
    before: WithdrawFee,
    after: WithdrawFee,
    transfer: Transfer,
)
    requires
        withdraw_refusal(before) is None,
        is_withdrawal_from(before, after, transfer),
    ensures
        withdraw_refusal(after) is None,
        fee_withdrawal(after.contest_metadata).amount == 0,
{
}

/// Withdraws the accrued fees: the result asks for the transfer of all of them
/// from the escrow to the administrator, and none is left accrued. Only the
/// configured administrator may call it, and only while the global counters
/// are not on loan. A refused withdrawal changes nothing.
pub fn withdraw_fee(ctx: &mut WithdrawFee) -> (res: Result<Transfer, ConfigError>)
    ensures
        match res {
            Ok(transfer) => withdraw_refusal(*old(ctx)) is None && is_withdrawal_from(
                *old(ctx),
                *final(ctx),
                transfer,
            ),
            Err(e) => withdraw_refusal(*old(ctx)) == Some(e) && *final(ctx) == *old(ctx),
        },
{
    if ctx.signer != ctx.config.admin {
        return Err(ConfigError::Unauthorized);
    }
    if ctx.contest_metadata.is_delegated {
        return Err(ConfigError::Delegated);
    }
    let amount: u64 = ctx.contest_metadata.token_draft_contest_fee_amount;
    ctx.contest_metadata.token_draft_contest_fee_amount = 0;
    Ok(
        Transfer {
            from: Party::Escrow,
            to: Party::Administrator,
            authority: Party::Escrow,
            amount,
        },
    )
}

} // verus!
