//! Fixed-point arithmetic on yield multipliers.
//!
//! All multipliers are `u64` values with an implicit six-decimal fixed point:
//! 1_000_000 is 1.0x, 500_000 is 0.5x, 1_500_000 is 1.5x.

use vstd::prelude::*;
use vstd::arithmetic::div_mod::{lemma_div_is_ordered, lemma_fundamental_div_mod, lemma_mod_bound};

verus! {

/// The fixed-point scale: the multiplier that stands for 1.0x.
pub const SCALE: u64 = 1_000_000;

/// Shares bought by `amount` at `multiplier`: `(amount * SCALE) / multiplier`,
/// rounded down.
pub open spec fn spec_amount_to_shares(amount: int, multiplier: int) -> int {
    amount * SCALE / multiplier
}

/// Amount paid out for `shares` at `multiplier`: `(shares * multiplier) / SCALE`,
/// rounded down.
pub open spec fn spec_shares_to_amount(shares: int, multiplier: int) -> int {
    shares * multiplier / (SCALE as int)
}

/// The inputs on which `amount_to_shares` is defined: a non-negative amount whose
/// scaled value fits in 128 unsigned bits (beyond it the computation overflows),
/// a non-zero multiplier, and a share count that fits in a `u64`.
pub open spec fn amount_to_shares_defined(amount: int, multiplier: int) -> bool {
    &&& 0 <= amount
    &&& amount * SCALE <= u128::MAX
    &&& 0 < multiplier
    &&& amount * SCALE / multiplier <= u64::MAX
}

/// Calculate shares from amount using yield multiplier:
/// shares = (amount * SCALE) / multiplier.
pub fn amount_to_shares(amount: i128, multiplier: u64) -> (shares: u64)
    requires
        amount_to_shares_defined(amount as int, multiplier as int),
    ensures
        shares == spec_amount_to_shares(amount as int, multiplier as int),
{
    let scaled: u128 = amount as u128 * SCALE as u128;
    let quotient: u128 = scaled / multiplier as u128;
    quotient as u64
}

/// Calculate amount from shares using yield multiplier:
/// amount = (shares * multiplier) / SCALE.
pub fn shares_to_amount(shares: u64, multiplier: u64) -> (amount: i128)
    ensures
        amount == spec_shares_to_amount(shares as int, multiplier as int),
{
    assert(shares as int * multiplier as int <= u64::MAX as int * u64::MAX as int)
        by (nonlinear_arith)
        requires
            shares <= u64::MAX,
            multiplier <= u64::MAX,
    ;
    let product: u128 = shares as u128 * multiplier as u128;
    let quotient: u128 = product / SCALE as u128;
    proof {
        lemma_floor_div(product as int, SCALE as int);
    }
    quotient as i128
}

/// Rounding down: `d * (x / d) <= x < d * (x / d) + d`.
proof fn lemma_floor_div(x: int, d: int)
    requires
        0 < d,
    ensures
        d * (x / d) <= x,
        x < d * (x / d) + d,
{
    lemma_fundamental_div_mod(x, d);
    lemma_mod_bound(x, d);
}

/// At a multiplier of 1.0x, shares and amounts are the same number: an amount
/// that fits in 64 bits buys as many shares, and shares pay out as many stroops.
pub proof fn lemma_no_yield_identity(value: int)
    requires
        0 <= value <= u64::MAX,
    ensures
        spec_amount_to_shares(value, SCALE as int) == value,
        spec_shares_to_amount(value, SCALE as int) == value,
{
    lemma_floor_div(value * SCALE, SCALE as int);
    assert(value * SCALE / SCALE as int == value) by (nonlinear_arith)
        requires
            SCALE as int * (value * SCALE / SCALE as int) <= value * SCALE,
            value * SCALE < SCALE as int * (value * SCALE / SCALE as int) + SCALE,
    ;
}

/// Buying shares with an amount and paying them out again at the same multiplier
/// never returns more than the amount, and the rounding loss times `SCALE` is at
/// most `multiplier + SCALE - 2`: at most 1 stroop up to 1.0x, at most 2 stroops
/// up to 2.0x.
pub proof fn lemma_round_trip_rounding(amount: int, multiplier: int)
    requires
        amount_to_shares_defined(amount, multiplier),
    ensures
        spec_shares_to_amount(spec_amount_to_shares(amount, multiplier), multiplier) <= amount,
        (amount - spec_shares_to_amount(spec_amount_to_shares(amount, multiplier), multiplier))
            * SCALE <= multiplier + SCALE - 2,
{
    let s = amount * SCALE / multiplier;
    lemma_floor_div(amount * SCALE, multiplier);
    assert(0 <= s) by (nonlinear_arith)
        requires
            multiplier * s + multiplier > amount * SCALE,
            amount >= 0,
            multiplier > 0,
    ;
    let r = s * multiplier / (SCALE as int);
    lemma_floor_div(s * multiplier, SCALE as int);
    assert(r <= amount && (amount - r) * SCALE <= multiplier + SCALE - 2) by (nonlinear_arith)
        requires
            multiplier * s <= amount * SCALE,
            amount * SCALE < multiplier * s + multiplier,
            SCALE * r <= s * multiplier,
            s * multiplier < SCALE * r + SCALE,
            SCALE == 1_000_000,
    ;
}

/// A multiplier above 1.0x buys fewer shares than the amount deposited.
pub proof fn lemma_yield_buys_fewer_shares(amount: int, multiplier: int)
    requires
        amount_to_shares_defined(amount, multiplier),
        0 < amount,
        multiplier > SCALE,
    ensures
        spec_amount_to_shares(amount, multiplier) < amount,
{
    let s = amount * SCALE / multiplier;
    lemma_floor_div(amount * SCALE, multiplier);
    assert(s < amount) by (nonlinear_arith)
        requires
            multiplier * s <= amount * SCALE,
            multiplier > SCALE,
            amount > 0,
    ;
}

/// A multiplier below 1.0x (a loss) buys at least as many shares as the amount,
/// and strictly more once `amount * (SCALE - multiplier) >= multiplier`.
pub proof fn lemma_loss_buys_more_shares(amount: int, multiplier: int)
    requires
        amount_to_shares_defined(amount, multiplier),
        multiplier < SCALE,
    ensures
        spec_amount_to_shares(amount, multiplier) >= amount,
        amount * (SCALE - multiplier) >= multiplier ==> spec_amount_to_shares(amount, multiplier)
            > amount,
{
    let s = amount * SCALE / multiplier;
    lemma_floor_div(amount * SCALE, multiplier);
    assert(s >= amount) by (nonlinear_arith)
        requires
            amount * SCALE < multiplier * s + multiplier,
            0 < multiplier < SCALE,
            amount >= 0,
    ;
    if amount * (SCALE - multiplier) >= multiplier {
        assert(s > amount) by (nonlinear_arith)
            requires
                amount * SCALE < multiplier * s + multiplier,
                amount * (SCALE - multiplier) >= multiplier,
                0 < multiplier,
        ;
    }
}

/// Every payout of 64-bit shares at a 64-bit multiplier is non-negative and fits
/// in an `i128`.
pub proof fn lemma_payout_fits(shares: u64, multiplier: u64)
    ensures
        0 <= spec_shares_to_amount(shares as int, multiplier as int) <= i128::MAX,
{
    assert(0 <= shares as int * multiplier as int <= u64::MAX as int * u64::MAX as int)
        by (nonlinear_arith)
        requires
            shares <= u64::MAX,
            multiplier <= u64::MAX,
    ;
    lemma_floor_div(shares as int * multiplier as int, SCALE as int);
}

/// Payouts grow with the multiplier: the same shares pay out at least as much at a
/// higher multiplier.
pub proof fn lemma_payout_monotone_in_multiplier(shares: int, low: int, high: int)
    requires
        0 <= shares,
        0 <= low <= high,
    ensures
        spec_shares_to_amount(shares, low) <= spec_shares_to_amount(shares, high),
{
    assert(shares * low <= shares * high) by (nonlinear_arith)
        requires
            0 <= shares,
            low <= high,
    ;
    lemma_div_is_ordered(shares * low, shares * high, SCALE as int);
}

/// Splitting a deposit never buys more shares: the shares of two amounts add up
/// to at most the shares of their sum at the same multiplier.
pub proof fn lemma_split_buys_no_more(first: int, second: int, multiplier: int)
    requires
        0 <= first,
        0 <= second,
        0 < multiplier,
    ensures
        spec_amount_to_shares(first, multiplier) + spec_amount_to_shares(second, multiplier)
            <= spec_amount_to_shares(first + second, multiplier),
{
    let q1 = first * SCALE / multiplier;
    let q2 = second * SCALE / multiplier;
    let q = (first + second) * SCALE / multiplier;
    lemma_floor_div(first * SCALE, multiplier);
    lemma_floor_div(second * SCALE, multiplier);
    lemma_floor_div((first + second) * SCALE, multiplier);
    assert(q1 + q2 <= q) by (nonlinear_arith)
        requires
            multiplier * q1 <= first * SCALE,
            multiplier * q2 <= second * SCALE,
            (first + second) * SCALE < multiplier * q + multiplier,
            0 < multiplier,
    ;
}

} // verus!
