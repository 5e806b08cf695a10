//! A savings and lending protocol: a rebasing yield ledger, time-locked
//! deposit vaults for stable and gold-backed assets, a committee and
//! token-weighted governance workflow, and a registry of coffee-backed
//! collateral.
//!
//! Each component is a plain state value. The host hands in the time (`now`,
//! in seconds) and the caller's identity, authenticates callers and moves
//! assets; the components decide and record. A call that fails changes
//! nothing, with one exception: closing a governance vote that did not pass
//! marks the proposal rejected and then fails with `ProposalRejected`.

pub mod types;
pub mod encoding;
pub mod yield_token;
pub mod usdc_vault;
pub mod gold_vault;
pub mod book;
pub mod governance;
pub mod coffee_collateral;

pub use types::{
    Address, CollateralInfo, CollateralStatus, CommitteeMember, DepositInfo, Error,
    ExpertiseArea, GovernanceProposal, LoanProposal, LockPeriod, ProfitReport, ProposalId,
    ProposalStatus, ProtocolParameter, TradeParams, UserYieldInfo, VaultType,
    COLLATERAL_RATIO_BASIS_POINTS, PAXG_ASSET, PROTOCOL_FEE_BASIS_POINTS, REBASE_INTERVAL,
    REQUIRED_COMMITTEE_APPROVALS, STORAGE_INSTANCE_PERSISTENT, TOTAL_COMMITTEE_SIZE, USDC_ASSET,
    WISDOMTREE_GOLD, YIELD_DISTRIBUTION_BASIS_POINTS,
};
pub use yield_token::{calculate_compound_yield, Holding, TokenMetadata, YieldToken};
pub use usdc_vault::USDCVault;
pub use gold_vault::{GoldDeposit, GoldVault};
pub use book::{Book, Entry};
pub use governance::{Governance, Mark};
pub use coffee_collateral::{CoffeeAsset, CoffeeCollateral};
