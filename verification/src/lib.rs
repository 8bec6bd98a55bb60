//! Share accounting for yield-bearing vaults that hold game entry fees.
//!
//! - [`vault_adapter`]: the adapter interface that vaults implement, and the
//!   fixed-point conversions between deposited amounts and vault shares.
//! - [`mock_vault`]: a yield vault whose state is an explicit value, with the
//!   deposit, withdrawal and configuration rules of the test vault contract.
//! - [`payout`]: the payout contract's liveness probe.

pub mod mock_vault;
pub mod payout;
pub mod vault_adapter;
