use crate::errors::ConfigError;
use crate::pubkey::Pubkey;
use crate::state::config::Config;
use crate::state::metadata::{ContestMetadata, FEE_PERCENT_BOUND};
use vstd::prelude::*;

verus! {

/// The records that the initialization works on. `config` and
/// `contest_metadata` are the places of the two global records: each is
/// filled once.
#[derive(Clone, Copy, Debug, PartialEq, Eq)]
pub struct InitConfigs {
    pub signer: Pubkey,
    pub config: Option<Config>,
    pub contest_metadata: Option<ContestMetadata>,
    pub mint: Pubkey,
}

/// The records that the creation of the protocol's token accounts reads.
#[derive(Clone, Copy, Debug, PartialEq, Eq)]
pub struct InitTokenAccounts {
    pub signer: Pubkey,
    pub config: Config,
    pub mint: Pubkey,
}

/// Why the initialization is refused, if it is: a global record exists
/// already, or the fee is not a percentage below `FEE_PERCENT_BOUND`.
pub open spec fn init_refusal(ctx: InitConfigs, fee_percent: u8) -> Option<ConfigError> {
    if ctx.config is Some || ctx.contest_metadata is Some {
        Some(ConfigError::AlreadyInitialized)
    } else if fee_percent >= FEE_PERCENT_BOUND {
        Some(ConfigError::InvalidFeePercent)
    } else {
        None
    }
}

/// Creates the two global records: the caller becomes the administrator,
/// `mint` the settlement asset, and the counters start at zero with the given
/// fee. A refused initialization changes nothing.
pub fn init_config(ctx: &mut InitConfigs, token_draft_contest_fee_percent: u8) -> (res: Result<
    (),
    ConfigError,
>)
    ensures
        match res {
            Ok(_) => {
                &&& init_refusal(*old(ctx), token_draft_contest_fee_percent) is None
                &&& final(ctx).config == Some(
                    Config { admin: old(ctx).signer, mint: old(ctx).mint, is_initialized: true },
                )
                &&& final(ctx).contest_metadata == Some(
                    ContestMetadata {
                        token_draft_contest_count: 0,
                        token_draft_contest_fee_percent,
                        token_draft_contest_fee_amount: 0,
                        is_delegated: false,
                    },
                )
                &&& final(ctx).config.unwrap().wf()
                &&& final(ctx).contest_metadata.unwrap().wf()
                &&& final(ctx).signer == old(ctx).signer
                &&& final(ctx).mint == old(ctx).mint
            },
            Err(e) => init_refusal(*old(ctx), token_draft_contest_fee_percent) == Some(e)
                && *final(ctx) == *old(ctx),
        },
{
    if ctx.config.is_some() || ctx.contest_metadata.is_some() {
        return Err(ConfigError::AlreadyInitialized);
    }
    if token_draft_contest_fee_percent >= FEE_PERCENT_BOUND {
        return Err(ConfigError::InvalidFeePercent);
    }
    ctx.config = Some(Config { admin: ctx.signer, mint: ctx.mint, is_initialized: true });
    ctx.contest_metadata = Some(
        ContestMetadata {
            token_draft_contest_count: 0,
            token_draft_contest_fee_percent,
            token_draft_contest_fee_amount: 0,
            is_delegated: false,
        },
    );
    Ok(())
}

/// Whether the token accounts of the protocol may be created for `ctx`: the
/// configuration is initialized, and `mint` is its settlement asset.
pub open spec fn may_init_token_accounts(ctx: InitTokenAccounts) -> bool {
    ctx.config.is_initialized && ctx.mint == ctx.config.mint
}

/// Admits the creation of the protocol's token accounts, which is the rail's
/// work: they are created in the settlement asset of an initialized
/// configuration, and for no other. No record changes.
pub fn init_token_accounts(ctx: &InitTokenAccounts) -> (res: Result<(), ConfigError>)
    ensures
        res == if may_init_token_accounts(*ctx) {
            Ok::<(), ConfigError>(())
        } else {
            Err::<(), ConfigError>(ConfigError::Unauthorized)
        },
{
    if ctx.config.is_initialized && ctx.mint == ctx.config.mint {
        Ok(())
    } else {
        Err(ConfigError::Unauthorized)
    }
}

} // verus!
