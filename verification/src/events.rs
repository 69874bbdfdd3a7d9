//! Audit records. Every state-mutating call appends one structured record —
//! the only externally observable trail of the engine's accounting. Fee
//! events carry the net amount and the fee, from which the gross follows.

use vstd::prelude::*;

verus! {

/// One entry of the audit trail.
#[derive(Debug, Clone, Copy, PartialEq, Eq, Structural)]
pub enum VaultEvent {
    /// A deposit was accepted and shares were minted.
    Deposit { user: u64, amount: u128, shares_minted: u128, timestamp: u64 },
    /// A regular withdrawal burned shares and paid out net assets.
    Withdraw { user: u64, assets: u128, shares: u128, fee: u128, timestamp: u64 },
    /// A time-locked withdrawal was requested and its payout snapshotted.
    WithdrawalRequested {
        user: u64,
        request_id: u64,
        shares: u128,
        assets_value: u128,
        unlock_time: u64,
    },
    /// A time-locked withdrawal was completed after its timelock.
    WithdrawalCompleted {
        user: u64,
        request_id: u64,
        assets: u128,
        shares: u128,
        fee: u128,
        timestamp: u64,
    },
    /// An instant withdrawal paid out of the pool against an extra flat fee.
    InstantWithdrawal { user: u64, assets: u128, shares: u128, fee: u128, timestamp: u64 },
    /// Management-fee shares were minted to the treasury.
    ManagementFeesCollected { shares: u128, treasury: u64, timestamp: u64 },
    /// Stuck outside funds were sent to a recipient by the admin.
    FundsRescued { token: u64, amount: u128, recipient: u64, timestamp: u64 },
    /// Operations were paused.
    Paused { by: u64, timestamp: u64 },
    /// Operations were resumed.
    Unpaused { by: u64, timestamp: u64 },
}

} // verus!
