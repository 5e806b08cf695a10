use vstd::prelude::*;

verus! {

/// An account or contract identity, as the host names it.
pub type Address = u64;

/// A proposal identifier: a 32-byte digest.
pub type ProposalId = [u8; 32];

#[derive(Clone, Copy, Debug, PartialEq, Eq, Structural)]
pub enum LockPeriod {
    /// 90 days, base yield rate.
    ThreeMonths,
    /// 180 days, 1.5 times the base rate.
    SixMonths,
    /// 365 days, twice the base rate.
    TwelveMonths,
}

#[derive(Clone, Copy, Debug, PartialEq, Eq, Structural)]
pub enum VaultType {
    USDC,
    PAXG,
    WisdomTreeGold,
}

#[derive(Clone, Copy, Debug, PartialEq, Eq, Structural)]
pub struct DepositInfo {
    /// Value in the vault's accounting unit.
    pub amount: u128,
    pub deposit_time: u64,
    pub unlock_time: u64,
    pub lock_period: LockPeriod,
    pub vault_type: VaultType,
}

#[derive(Clone, Copy, Debug, PartialEq, Eq, Structural)]
pub struct UserYieldInfo {
    pub principal: u128,
    /// Annual rate in basis points (500 = 5%).
    pub yield_rate: u128,
    pub last_compound_time: u64,
    pub total_yield_earned: u128,
}

#[derive(Clone, Copy, Debug, PartialEq, Eq, Structural)]
pub enum CollateralStatus {
    Active,
    Liquidated,
    Expired,
}

#[derive(Clone, Copy, Debug, PartialEq, Eq, Structural)]
pub struct CollateralInfo {
    pub asset_address: Address,
    pub quality_grade: u32,
    pub quantity_kg: u128,
    pub estimated_value_usd: u128,
    pub creation_time: u64,
    pub status: CollateralStatus,
}

#[derive(Clone, Copy, Debug, PartialEq, Eq, Structural)]
pub enum ProposalStatus {
    Pending,
    Approved,
    Rejected,
    Executed,
}

#[derive(Clone, Copy, Debug, PartialEq, Eq)]
pub struct LoanProposal {
    pub id: ProposalId,
    pub borrower: Address,
    pub amount: u128,
    pub collateral: Address,
    pub interest_rate: u128,
    pub duration: u64,
    pub approvals: u32,
    pub status: ProposalStatus,
    pub created_at: u64,
}

#[derive(Clone, Copy, Debug, PartialEq, Eq, Structural)]
pub enum ExpertiseArea {
    CoffeeIndustry,
    RiskManagement,
    Trading,
    Agriculture,
}

#[derive(Clone, Copy, Debug, PartialEq, Eq, Structural)]
pub struct CommitteeMember {
    pub address: Address,
    pub expertise: ExpertiseArea,
    /// Recorded but not used: each member's approval counts once.
    pub vote_weight: u32,
}

#[derive(Clone, Copy, Debug, PartialEq, Eq, Structural)]
pub enum ProtocolParameter {
    MinimumLockPeriod,
    MaximumYieldRate,
    CollateralRatio,
    ProtocolFeeRate,
    EmergencyWithdrawFee,
}

#[derive(Clone, Copy, Debug, PartialEq, Eq)]
pub struct GovernanceProposal {
    pub id: ProposalId,
    pub proposer: Address,
    pub parameter: ProtocolParameter,
    pub new_value: u128,
    /// Sum of the voting power cast in favour.
    pub votes_for: u128,
    /// Sum of the voting power cast against.
    pub votes_against: u128,
    pub voting_deadline: u64,
    pub status: ProposalStatus,
}

#[derive(Clone, Copy, Debug, PartialEq, Eq, Structural)]
pub struct ProfitReport {
    pub total_profit: u128,
    pub coffee_lending_profit: u128,
    pub trading_profit: u128,
    pub yield_distributed: u128,
    pub protocol_fee: u128,
    pub timestamp: u64,
}

#[derive(Clone, Copy, Debug, PartialEq, Eq, Structural)]
pub struct TradeParams {
    pub asset_in: Address,
    pub asset_out: Address,
    pub amount_in: u128,
    pub min_amount_out: u128,
    pub deadline: u64,
}

/// Why an operation was refused. A refused operation changes nothing, but
/// for `ProposalRejected`, which leaves the proposal marked rejected.
#[derive(Clone, Copy, Debug, PartialEq, Eq, Structural)]
pub enum Error {
    /// The caller is not the stored administrator (or oracle, or committee).
    NotAuthorized,
    /// The caller is not a member of the committee.
    NotCommitteeMember,
    /// The ledger caller is not an authorized vault.
    NotAuthorizedVault,
    /// A zero or negative amount.
    InvalidAmount,
    /// A quality grade outside 1..=100.
    InvalidGrade,
    /// The asset is not in the vault's supported set.
    UnsupportedAsset,
    /// A committee whose size is not the fixed committee size.
    InvalidCommitteeSize,
    /// The user already has an active deposit.
    DepositExists,
    /// This member already approved this proposal.
    AlreadyApproved,
    /// This address already voted on this proposal.
    AlreadyVoted,
    /// The proposal is closed: a vote that is not pending, or a loan already
    /// executed.
    NotPending,
    /// The loan proposal is not approved.
    NotApproved,
    /// The collateral is not active.
    CollateralInactive,
    NoDeposit,
    ProposalNotFound,
    TradeNotFound,
    CollateralNotFound,
    IssuerNotFound,
    /// The deposit is still locked.
    LockStillActive,
    /// The trade's deadline has passed.
    Expired,
    /// Voting has closed.
    VotingClosed,
    /// Voting is still open.
    VotingOpen,
    /// The votes in favour did not exceed the votes against.
    ProposalRejected,
    InsufficientBalance,
    InsufficientCollateral,
    InsufficientVotingPower,
    /// A result would not fit its integer type.
    Overflow,
    /// Delegated spending is not offered by the yield token.
    Unsupported,
}

/// One year, in seconds.
pub const STORAGE_INSTANCE_PERSISTENT: u64 = 86400 * 365;

/// One day, in seconds.
pub const REBASE_INTERVAL: u64 = 86400;

pub const REQUIRED_COMMITTEE_APPROVALS: u32 = 3;

pub const TOTAL_COMMITTEE_SIZE: u32 = 5;

/// 20%.
pub const PROTOCOL_FEE_BASIS_POINTS: u128 = 2000;

/// 80%.
pub const YIELD_DISTRIBUTION_BASIS_POINTS: u128 = 8000;

/// 150%.
pub const COLLATERAL_RATIO_BASIS_POINTS: u128 = 15000;

pub const USDC_ASSET: &'static str = "USDC:GA5ZSEJYB37JRC5AVCIA5MOP4RHTM335X2KGX3IHOJAPP5RE34K4KZVN";

pub const PAXG_ASSET: &'static str = "PAXG:PLACEHOLDER_ADDRESS_FOR_PAXG";

pub const WISDOMTREE_GOLD: &'static str = "WTGOLD:PLACEHOLDER_ADDRESS_FOR_WISDOMTREE";

/// Seconds a deposit stays locked.
pub open spec fn lock_seconds(p: LockPeriod) -> int {
    match p {
        LockPeriod::ThreeMonths => 7776000int,
        LockPeriod::SixMonths => 15552000int,
        LockPeriod::TwelveMonths => 31536000int,
    }
}

/// Annual yield rate, in basis points, for a lock period.
pub open spec fn yield_rate_for(p: LockPeriod) -> int {
    match p {
        LockPeriod::ThreeMonths => 500,
        LockPeriod::SixMonths => 750,
        LockPeriod::TwelveMonths => 1000,
    }
}

} // verus!
