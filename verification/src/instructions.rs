//! The operations of the engine, each on the records that it works on.

pub mod claim;
pub mod create;
pub mod delegate_er;
pub mod enter;
pub mod initialize;
pub mod post_prices;
pub mod resolve;
pub mod resolve_er;
pub mod withdraw_fee;

pub use claim::{claim_token_draft_contest, ClaimTokenDraftContest};
pub use create::{create_token_draft_contest, CreateTokenDraftContest};
pub use delegate_er::{commit_and_undelegate, delegate_er, DelegateEr};
pub use enter::{enter_token_draft_contest, EnterTokenDraftContest};
pub use initialize::{init_config, init_token_accounts, InitConfigs, InitTokenAccounts};
pub use post_prices::{post_token_draft_contest_prices, PostTokenDraftContestPrices};
pub use resolve::{resolve_token_draft_contest, settlement_prices, ResolveTokenDraftContest};
pub use resolve_er::{resolve_token_draft_contest_er, ResolveTokenDraftContestEr};
pub use withdraw_fee::{withdraw_fee, WithdrawFee};
