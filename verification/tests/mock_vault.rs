use rwa_vault::mock_vault::{MockYieldVault, VaultError, DEFAULT_YIELD_MULTIPLIER};
use rwa_vault::payout::PayoutContract;
use rwa_vault::vault_adapter::VaultError as AdapterError;

const ALICE: &[u8] = b"GALICE";
const BOB: &[u8] = b"GBOB";

#[test]
fn fresh_vault_reads_defaults() {
    let vault = MockYieldVault::new();
    assert_eq!(vault.get_yield_multiplier(), DEFAULT_YIELD_MULTIPLIER);
    assert_eq!(vault.get_total_shares(), 0);
    assert_eq!(vault.get_total_deposited(), 0);
    assert_eq!(vault.get_player_shares(ALICE), 0);
}

#[test]
fn deposit_at_no_yield_gives_shares_equal_to_amount() {
    let mut vault = MockYieldVault::new();
    vault.initialize();
    assert_eq!(vault.deposit(ALICE, 100_000_000), Ok(100_000_000));
    assert_eq!(vault.get_player_shares(ALICE), 100_000_000);
    assert_eq!(vault.get_total_shares(), 100_000_000);
    assert_eq!(vault.get_total_deposited(), 100_000_000);
}

#[test]
fn deposit_with_yield_gives_fewer_shares() {
    let mut vault = MockYieldVault::new();
    assert_eq!(vault.set_yield_multiplier(1_050_000), Ok(()));
    assert_eq!(vault.deposit(ALICE, 100_000_000), Ok(95_238_095));
    assert_eq!(vault.get_player_shares(ALICE), 95_238_095);
    assert_eq!(vault.get_total_deposited(), 100_000_000);
}

#[test]
fn deposit_rejects_non_positive_and_worthless_amounts() {
    let mut vault = MockYieldVault::new();
    assert_eq!(vault.deposit(ALICE, 0), Err(VaultError::DepositFailed));
    assert_eq!(vault.deposit(ALICE, -5), Err(VaultError::DepositFailed));
    // At 2.0x one stroop buys half a share, which rounds to none.
    assert_eq!(vault.set_yield_multiplier(2_000_000), Ok(()));
    assert_eq!(vault.deposit(ALICE, 1), Err(VaultError::DepositFailed));
    assert_eq!(vault.get_total_shares(), 0);
    assert_eq!(vault.get_total_deposited(), 0);
    assert_eq!(vault.get_player_shares(ALICE), 0);
}

#[test]
fn withdraw_pays_shares_times_multiplier() {
    let mut vault = MockYieldVault::new();
    assert_eq!(vault.deposit(ALICE, 100_000_000), Ok(100_000_000));
    assert_eq!(vault.set_yield_multiplier(1_050_000), Ok(()));
    assert_eq!(vault.withdraw(ALICE, 40_000_000), Ok(42_000_000));
    assert_eq!(vault.get_player_shares(ALICE), 60_000_000);
    assert_eq!(vault.get_total_shares(), 60_000_000);
    // Withdrawals do not change the total deposited.
    assert_eq!(vault.get_total_deposited(), 100_000_000);
}

#[test]
fn withdraw_rejects_zero_and_excessive_shares() {
    let mut vault = MockYieldVault::new();
    assert_eq!(vault.deposit(ALICE, 1_000), Ok(1_000));
    assert_eq!(vault.withdraw(ALICE, 0), Err(VaultError::InvalidShares));
    assert_eq!(vault.withdraw(ALICE, 1_001), Err(VaultError::InvalidShares));
    assert_eq!(vault.withdraw(BOB, 1), Err(VaultError::InvalidShares));
    assert_eq!(vault.get_player_shares(ALICE), 1_000);
}

#[test]
fn withdraw_rejects_worthless_shares() {
    let mut vault = MockYieldVault::new();
    assert_eq!(vault.deposit(ALICE, 10), Ok(10));
    // At 0.05x, one share is worth 0.05 stroops, which rounds to nothing.
    assert_eq!(vault.set_yield_multiplier(50_000), Ok(()));
    assert_eq!(vault.withdraw(ALICE, 1), Err(VaultError::WithdrawalFailed));
    assert_eq!(vault.get_player_shares(ALICE), 10);
    assert_eq!(vault.withdraw(ALICE, 10), Err(VaultError::WithdrawalFailed));
    assert_eq!(vault.set_yield_multiplier(100_000), Ok(()));
    assert_eq!(vault.withdraw(ALICE, 10), Ok(1));
    assert_eq!(vault.get_player_shares(ALICE), 0);
}

#[test]
fn set_yield_multiplier_rejects_zero() {
    let mut vault = MockYieldVault::new();
    assert_eq!(vault.set_yield_multiplier(0), Err(VaultError::DepositFailed));
    assert_eq!(vault.get_yield_multiplier(), DEFAULT_YIELD_MULTIPLIER);
    assert_eq!(vault.set_yield_multiplier(1_234_567), Ok(()));
    assert_eq!(vault.get_yield_multiplier(), 1_234_567);
}

#[test]
fn players_keep_independent_balances() {
    let mut vault = MockYieldVault::new();
    assert_eq!(vault.deposit(ALICE, 250_000_000), Ok(250_000_000));
    assert_eq!(vault.deposit(BOB, 100_000_000), Ok(100_000_000));
    assert_eq!(vault.withdraw(ALICE, 125_000_000), Ok(125_000_000));
    assert_eq!(vault.get_player_shares(ALICE), 125_000_000);
    assert_eq!(vault.get_player_shares(BOB), 100_000_000);
    assert_eq!(vault.get_total_shares(), 225_000_000);
    assert_eq!(vault.deposit(ALICE, 5), Ok(5));
    assert_eq!(vault.get_player_shares(ALICE), 125_000_005);
    assert_eq!(vault.get_player_shares(BOB), 100_000_000);
}

#[test]
fn deposit_then_withdraw_round_trip_with_yield() {
    let mut vault = MockYieldVault::new();
    assert_eq!(vault.set_yield_multiplier(1_050_000), Ok(()));
    let shares = vault.deposit(ALICE, 100_000_000).unwrap();
    let paid = vault.withdraw(ALICE, shares).unwrap();
    assert_eq!(paid, 99_999_999);
    assert!(paid <= 100_000_000);
    assert_eq!(vault.get_player_shares(ALICE), 0);
    assert_eq!(vault.get_total_shares(), 0);
}

#[test]
fn no_yield_round_trip_is_exact() {
    let mut vault = MockYieldVault::new();
    assert_eq!(vault.deposit(BOB, 777_777), Ok(777_777));
    assert_eq!(vault.withdraw(BOB, 777_777), Ok(777_777));
}

#[test]
fn raising_the_multiplier_raises_the_payout() {
    let mut low = MockYieldVault::new();
    let mut high = MockYieldVault::new();
    assert_eq!(low.deposit(ALICE, 1_000_000), Ok(1_000_000));
    assert_eq!(high.deposit(ALICE, 1_000_000), Ok(1_000_000));
    assert_eq!(high.set_yield_multiplier(1_100_000), Ok(()));
    let a = low.withdraw(ALICE, 500_000).unwrap();
    let b = high.withdraw(ALICE, 500_000).unwrap();
    assert_eq!(a, 500_000);
    assert_eq!(b, 550_000);
}

#[test]
fn total_shares_stop_at_zero() {
    // A vault restored with fewer total shares than one player's balance.
    let mut vault = MockYieldVault::from_stored(1_000_000, 3, 10, ALICE, 8);
    assert_eq!(vault.withdraw(ALICE, 5), Ok(5));
    assert_eq!(vault.get_total_shares(), 0);
    assert_eq!(vault.get_player_shares(ALICE), 3);
    assert_eq!(vault.get_player_shares(BOB), 0);
    assert_eq!(vault.get_total_deposited(), 10);
}

#[test]
fn initialize_resets_totals_and_keeps_balances() {
    let mut vault = MockYieldVault::new();
    assert_eq!(vault.set_yield_multiplier(2_000_000), Ok(()));
    assert_eq!(vault.deposit(ALICE, 10_000_000), Ok(5_000_000));
    vault.initialize();
    assert_eq!(vault.get_yield_multiplier(), 1_000_000);
    assert_eq!(vault.get_total_shares(), 0);
    assert_eq!(vault.get_total_deposited(), 0);
    assert_eq!(vault.get_player_shares(ALICE), 5_000_000);
}

#[test]
fn error_codes() {
    assert_eq!(VaultError::DepositFailed.code(), 1);
    assert_eq!(VaultError::WithdrawalFailed.code(), 2);
    assert_eq!(VaultError::InvalidShares.code(), 3);
    assert_eq!(AdapterError::DepositFailed.code(), 1);
    assert_eq!(AdapterError::WithdrawalFailed.code(), 2);
    assert_eq!(AdapterError::InvalidShares.code(), 3);
}

#[test]
fn payout_hello_returns_liveness_value() {
    assert_eq!(PayoutContract::hello(), 789);
}

#[test]
fn deposit_in_range_detects_overflow() {
    let vault = MockYieldVault::from_stored(1_000_000, u64::MAX - 1, 0, ALICE, 0);
    assert!(vault.deposit_in_range(ALICE, 0));
    assert!(vault.deposit_in_range(ALICE, -7));
    assert!(vault.deposit_in_range(ALICE, 1));
    assert!(!vault.deposit_in_range(ALICE, 2));
    assert!(!vault.deposit_in_range(ALICE, i128::MAX));

    let full = MockYieldVault::from_stored(1_000_000, 0, i128::MAX - 3, BOB, 0);
    assert!(full.deposit_in_range(BOB, 3));
    assert!(!full.deposit_in_range(BOB, 4));

    let rich = MockYieldVault::from_stored(1_000_000, 0, 0, BOB, u64::MAX);
    assert!(!rich.deposit_in_range(BOB, 1));
    assert!(rich.deposit_in_range(ALICE, 1));

    // Amounts that buy no shares never reach the additions.
    let dear = MockYieldVault::from_stored(u64::MAX, u64::MAX, i128::MAX, ALICE, u64::MAX);
    assert!(dear.deposit_in_range(ALICE, 1));
    // The scaled amount must fit in 128 unsigned bits, and the shares in a u64:
    // the largest scaled amount would buy 2^64 shares here.
    let limit = (u128::MAX / 1_000_000) as i128;
    assert!(!dear.deposit_in_range(ALICE, limit));
    assert!(!dear.deposit_in_range(ALICE, limit + 1));
}

#[test]
fn deposit_in_range_refuses_share_counts_beyond_64_bits() {
    let mut vault = MockYieldVault::new();
    assert_eq!(vault.set_yield_multiplier(1), Ok(()));
    // At multiplier 1, one stroop buys 1_000_000 shares.
    assert!(vault.deposit_in_range(ALICE, 18_446_744_073_709));
    assert!(!vault.deposit_in_range(ALICE, 18_446_744_073_710));
    assert!(!vault.deposit_in_range(ALICE, (1i128 << 60) + 1));
    assert_eq!(
        vault.deposit(ALICE, 18_446_744_073_709),
        Ok(18_446_744_073_709_000_000)
    );
    // At 1.0x, amounts above u64::MAX buy more shares than a u64 holds.
    let fresh = MockYieldVault::new();
    assert!(fresh.deposit_in_range(ALICE, u64::MAX as i128));
    assert!(!fresh.deposit_in_range(ALICE, (1i128 << 64) + 5));
}

#[test]
fn total_shares_track_the_sum_of_balances() {
    let mut vault = MockYieldVault::new();
    assert_eq!(vault.deposit(ALICE, 300), Ok(300));
    assert_eq!(vault.deposit(BOB, 200), Ok(200));
    assert_eq!(vault.withdraw(ALICE, 125), Ok(125));
    assert_eq!(vault.withdraw(BOB, 201), Err(VaultError::InvalidShares));
    let sum = vault.get_player_shares(ALICE) + vault.get_player_shares(BOB);
    assert_eq!(vault.get_total_shares(), sum);
    assert_eq!(sum, 375);
}

#[test]
fn split_deposits_earn_no_more_shares() {
    let mut split = MockYieldVault::new();
    assert_eq!(split.set_yield_multiplier(300_000), Ok(()));
    let s1 = split.deposit(ALICE, 2).unwrap();
    let s2 = split.deposit(ALICE, 2).unwrap();
    assert_eq!((s1, s2), (6, 6));
    let mut whole = MockYieldVault::new();
    assert_eq!(whole.set_yield_multiplier(300_000), Ok(()));
    let s = whole.deposit(ALICE, 4).unwrap();
    assert_eq!(s, 13);
    assert!(s1 + s2 <= s);
}
