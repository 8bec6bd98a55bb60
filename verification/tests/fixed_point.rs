use rwa_vault::vault_adapter::fixed_point;

#[test]
fn test_fixed_point_no_yield() {
    // No yield: multiplier = 1.0x
    let multiplier = 1_000_000u64;
    let amount = 100_000_000i128; // 10 XLM in stroops

    let shares = fixed_point::amount_to_shares(amount, multiplier);
    assert_eq!(shares, amount as u64, "No yield: shares = amount");

    let returned = fixed_point::shares_to_amount(shares, multiplier);
    assert_eq!(returned, amount, "No yield: amount = shares");
}

#[test]
fn test_fixed_point_5_percent_yield() {
    // 5% yield: multiplier = 1.05x
    let multiplier = 1_050_000u64;
    let amount = 100_000_000i128; // 10 XLM in stroops

    let shares = fixed_point::amount_to_shares(amount, multiplier);
    // shares ≈ 100_000_000 / 1.05 ≈ 95_238_095
    assert!(shares < amount as u64, "Yield > 1.0x: shares < amount");

    let returned = fixed_point::shares_to_amount(shares, multiplier);
    // returned ≈ 95_238_095 * 1.05 ≈ 100_000_000 (within rounding)
    assert!(
        (returned - amount).abs() <= 2,
        "Rounding error <= 2 stroops: {} vs {}",
        returned,
        amount
    );
}

#[test]
fn test_fixed_point_loss_scenario() {
    // Loss: multiplier = 0.99x (edge case, shouldn't happen in normal operations)
    let multiplier = 990_000u64;
    let amount = 100_000_000i128;

    let shares = fixed_point::amount_to_shares(amount, multiplier);
    // shares = 100_000_000 / 0.99 ≈ 101_010_101
    assert!(shares > amount as u64, "Loss: shares > amount");

    let returned = fixed_point::shares_to_amount(shares, multiplier);
    // returned ≈ 101_010_101 * 0.99 ≈ 100_000_000
    assert!(
        (returned - amount).abs() <= 2,
        "Loss scenario: rounding error <= 2 stroops"
    );
}

#[test]
fn fixed_point_exact_values() {
    assert_eq!(fixed_point::SCALE, 1_000_000);
    assert_eq!(fixed_point::amount_to_shares(100_000_000, 1_050_000), 95_238_095);
    assert_eq!(fixed_point::shares_to_amount(95_238_095, 1_050_000), 99_999_999);
    assert_eq!(fixed_point::amount_to_shares(100_000_000, 990_000), 101_010_101);
    assert_eq!(fixed_point::shares_to_amount(101_010_101, 990_000), 99_999_999);
    assert_eq!(fixed_point::amount_to_shares(0, 1), 0);
    assert_eq!(fixed_point::shares_to_amount(0, u64::MAX), 0);
}

#[test]
fn fixed_point_largest_share_counts() {
    // Share counts up to u64::MAX are exact.
    assert_eq!(fixed_point::amount_to_shares(u64::MAX as i128, 1_000_000), u64::MAX);
    assert_eq!(
        fixed_point::amount_to_shares(18_446_744_073_709, 1),
        18_446_744_073_709_000_000
    );
}

#[test]
fn fixed_point_largest_payout_fits() {
    let paid = fixed_point::shares_to_amount(u64::MAX, u64::MAX);
    let expected = (u64::MAX as u128 * u64::MAX as u128 / 1_000_000) as i128;
    assert_eq!(paid, expected);
    assert!(paid > 0);
}

#[test]
fn fixed_point_round_trip_rounding_bound() {
    // The rounding loss times SCALE is at most multiplier + SCALE - 2.
    for &multiplier in &[1u64, 999_999, 1_000_000, 1_000_001, 1_050_000, 3_000_000, 7_654_321] {
        for &amount in &[1i128, 2, 3, 999, 1_000_000, 123_456_789, 100_000_000] {
            let shares = fixed_point::amount_to_shares(amount, multiplier);
            let returned = fixed_point::shares_to_amount(shares, multiplier);
            assert!(returned <= amount);
            assert!((amount - returned) * 1_000_000 <= multiplier as i128 + 1_000_000 - 2);
        }
    }
}

#[test]
fn fixed_point_payout_grows_with_multiplier() {
    let shares = 123_456_789u64;
    let low = fixed_point::shares_to_amount(shares, 1_000_000);
    let high = fixed_point::shares_to_amount(shares, 1_200_000);
    assert_eq!(low, 123_456_789);
    assert_eq!(high, 148_148_146);
    assert!(low <= high);
}
