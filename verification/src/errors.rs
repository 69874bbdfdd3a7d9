//! Coded errors surfaced by the vault engine and its neighbouring subsystems.
//!
//! Every violated precondition aborts the call that hit it and leaves the
//! state unchanged; the caller receives one of these codes.

use vstd::prelude::*;

verus! {

/// Errors of the vault accounting and withdrawal engine.
#[derive(Debug, Clone, Copy, PartialEq, Eq, Structural)]
pub enum VaultError {
    /// User has insufficient balance (also used for the dust-floor case)
    InsufficientBalance,
    /// Amount provided is zero
    ZeroAmount,
    /// Total shares is zero (cannot calculate share price)
    ZeroTotalShares,
    /// Operation would result in arithmetic overflow
    ArithmeticOverflow,
    /// Operation would result in arithmetic underflow
    ArithmeticUnderflow,
    /// Vault is paused
    Paused,
    /// Vault is not paused
    NotPaused,
    /// Caller is not authorized for this operation
    Unauthorized,
    /// Reentrancy attempt detected
    ReentrancyGuard,
    /// Rate limit exceeded
    RateLimitExceeded,
    /// Insufficient liquidity in instant withdrawal pool
    InsufficientLiquidity,
    /// Withdrawal request not found
    WithdrawalRequestNotFound,
    /// Withdrawal timelock not expired
    TimelockNotExpired,
    /// Invalid withdrawal request ID
    InvalidRequestId,
    /// Timelock still active
    TimelockActive,
    /// Invalid request
    InvalidRequest,
    /// Contract is paused
    ContractPaused,
    /// Amount too low for operation
    AmountTooLow,
    /// Operation attempted too soon
    TooSoon,
    /// Conditions not met for operation
    ConditionsNotMet,
    /// No fees available to distribute
    NoFeesToDistribute,
    /// Invalid fee percentage
    InvalidFee,
    /// Slippage exceeded maximum allowed
    SlippageExceeded,
}

impl VaultError {
    /// The stable numeric code under which the host ledger reports this error.
    pub open spec fn code_spec(self) -> u16 {
        match self {
            VaultError::InsufficientBalance => 1,
            VaultError::ZeroAmount => 2,
            VaultError::ZeroTotalShares => 3,
            VaultError::ArithmeticOverflow => 4,
            VaultError::ArithmeticUnderflow => 5,
            VaultError::Paused => 6,
            VaultError::NotPaused => 7,
            VaultError::Unauthorized => 8,
            VaultError::ReentrancyGuard => 9,
            VaultError::RateLimitExceeded => 10,
            VaultError::InsufficientLiquidity => 11,
            VaultError::WithdrawalRequestNotFound => 12,
            VaultError::TimelockNotExpired => 13,
            VaultError::InvalidRequestId => 14,
            VaultError::TimelockActive => 15,
            VaultError::InvalidRequest => 16,
            VaultError::ContractPaused => 17,
            VaultError::AmountTooLow => 18,
            VaultError::TooSoon => 19,
            VaultError::ConditionsNotMet => 20,
            VaultError::NoFeesToDistribute => 21,
            VaultError::InvalidFee => 22,
            VaultError::SlippageExceeded => 23,
        }
    }

    /// Numeric code of this error.
    pub fn code(self) -> (r: u16)
        ensures
            r == self.code_spec(),
    {
        match self {
            VaultError::InsufficientBalance => 1,
            VaultError::ZeroAmount => 2,
            VaultError::ZeroTotalShares => 3,
            VaultError::ArithmeticOverflow => 4,
            VaultError::ArithmeticUnderflow => 5,
            VaultError::Paused => 6,
            VaultError::NotPaused => 7,
            VaultError::Unauthorized => 8,
            VaultError::ReentrancyGuard => 9,
            VaultError::RateLimitExceeded => 10,
            VaultError::InsufficientLiquidity => 11,
            VaultError::WithdrawalRequestNotFound => 12,
            VaultError::TimelockNotExpired => 13,
            VaultError::InvalidRequestId => 14,
            VaultError::TimelockActive => 15,
            VaultError::InvalidRequest => 16,
            VaultError::ContractPaused => 17,
            VaultError::AmountTooLow => 18,
            VaultError::TooSoon => 19,
            VaultError::ConditionsNotMet => 20,
            VaultError::NoFeesToDistribute => 21,
            VaultError::InvalidFee => 22,
            VaultError::SlippageExceeded => 23,
        }
    }
}

/// Errors specific to liquid staking operations.
#[derive(Debug, Clone, Copy, PartialEq, Eq, Structural)]
pub enum StakingError {
    /// Validator not found in registry
    ValidatorNotFound,
    /// Validator does not meet minimum requirements
    ValidatorNotEligible,
    /// Validator is at maximum capacity
    ValidatorAtCapacity,
    /// No eligible validators available
    NoEligibleValidators,
    /// Delegation failed
    DelegationFailed,
    /// Undelegation failed
    UndelegationFailed,
    /// Reward claim failed
    RewardClaimFailed,
    /// Invalid validator address
    InvalidValidator,
    /// Cannot unstake more than staked amount
    ExceedsStakedAmount,
}

/// Errors related to access control.
#[derive(Debug, Clone, Copy, PartialEq, Eq, Structural)]
pub enum AccessError {
    /// Caller does not have required role
    MissingRole,
    /// Role does not exist
    InvalidRole,
    /// Cannot renounce last admin
    CannotRenounceLastAdmin,
    /// Multi-sig threshold not met
    InsufficientSignatures,
    /// Timelock not expired
    TimelockActive,
}

/// Errors related to token operations.
#[derive(Debug, Clone, Copy, PartialEq, Eq, Structural)]
pub enum TokenError {
    /// Insufficient token balance
    InsufficientTokenBalance,
    /// Mint amount is zero
    ZeroMintAmount,
    /// Burn amount is zero
    ZeroBurnAmount,
    /// Transfer amount is zero
    ZeroTransferAmount,
    /// Transfer to zero address
    TransferToZeroAddress,
    /// Allowance exceeded
    AllowanceExceeded,
}

/// Errors related to bridge operations.
#[derive(Debug, Clone, Copy, PartialEq, Eq, Structural)]
pub enum BridgeError {
    /// Bridge operation failed
    BridgeOperationFailed,
    /// Insufficient confirmations
    InsufficientConfirmations,
    /// Invalid proof
    InvalidProof,
    /// Bridge is paused
    BridgePaused,
    /// Bridge rate limit exceeded
    BridgeRateLimitExceeded,
}

} // verus!
