//! RWA vault adapter interface.
//!
//! Defines the interface for RWA (Real World Assets) vault deposits and yield.
//! Implementations handle fund custody, yield accrual, and share-based withdrawals.

use vstd::prelude::*;

pub mod fixed_point;

verus! {

/// Errors returned by vault operations.
#[derive(Copy, Clone, Debug, PartialEq, Eq, Structural, PartialOrd, Ord)]
pub enum VaultError {
    /// Deposit operation failed (vault unavailable, insufficient capacity, etc.)
    DepositFailed,
    /// Withdrawal operation failed (vault unavailable, insufficient funds, etc.)
    WithdrawalFailed,
    /// Requested share count is invalid or caller doesn't hold specified shares
    InvalidShares,
}

impl VaultError {
    /// The error's numeric code as the contract interface reports it.
    pub open spec fn spec_code(self) -> u32 {
        match self {
            VaultError::DepositFailed => 1,
            VaultError::WithdrawalFailed => 2,
            VaultError::InvalidShares => 3,
        }
    }

    /// The error's numeric code: 1, 2 and 3 in declaration order.
    pub fn code(&self) -> (c: u32)
        ensures
            c == self.spec_code(),
    {
        match self {
            VaultError::DepositFailed => 1,
            VaultError::WithdrawalFailed => 2,
            VaultError::InvalidShares => 3,
        }
    }
}

/// Result type for vault operations.
pub type VaultResult<T> = Result<T, VaultError>;

/// Interface of RWA vault adapters.
///
/// A vault adapter handles deposit of game entry fees and withdrawal of prize pools,
/// potentially accruing yield over the duration of the game. This adapter pattern
/// allows the arena to work with multiple vault implementations (primary, fallback,
/// test mocks).
pub trait RwaVaultAdapter {
    /// Deposit `amount` stroops (1 XLM = 10_000_000 stroops) into the vault,
    /// receiving shares in exchange.
    ///
    /// Shares represent a claim on the principal plus any accrued yield:
    /// shares = amount / yield_multiplier at deposit time (see
    /// [`fixed_point::amount_to_shares`]).
    ///
    /// Fails with [`VaultError::DepositFailed`] when the vault rejects the deposit.
    fn deposit(&self, amount: i128) -> VaultResult<u64>;

    /// Withdraw funds from the vault by burning `shares`.
    ///
    /// Returns the amount in stroops received (principal + accrued yield):
    /// returned_amount = shares * yield_multiplier (see
    /// [`fixed_point::shares_to_amount`]).
    ///
    /// Fails with [`VaultError::WithdrawalFailed`] when the vault rejects the
    /// withdrawal, and with [`VaultError::InvalidShares`] when the caller does not
    /// hold the shares.
    fn withdraw(&self, shares: u64) -> VaultResult<i128>;

    /// Query the current yield multiplier, a fixed-point value with six decimals:
    /// 1_000_000 is 1.0x (no yield), 1_050_000 is 1.05x, values below 1_000_000
    /// are losses.
    fn query_yield_multiplier(&self) -> VaultResult<u64>;
}

} // verus!
