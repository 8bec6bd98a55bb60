//! A mock yield vault for tests of the arena.
//!
//! The vault's state is what the contract keeps in its instance storage: the
//! yield multiplier, the total of shares outstanding, the total deposited, and
//! each player's share balance. Players are identified by the bytes of their
//! address. A storage entry that was never written reads as its default: the
//! multiplier as 1.0x ([`DEFAULT_YIELD_MULTIPLIER`]), totals and balances as 0.

use vstd::prelude::*;
use vstd::slice::slice_to_vec;

use crate::vault_adapter::fixed_point::{
    amount_to_shares, lemma_no_yield_identity, lemma_payout_fits, lemma_payout_monotone_in_multiplier,
    lemma_round_trip_rounding, lemma_split_buys_no_more, shares_to_amount, spec_amount_to_shares,
    spec_shares_to_amount, SCALE,
};

verus! {

/// Default yield multiplier: 1.0x (no yield).
pub const DEFAULT_YIELD_MULTIPLIER: u64 = 1_000_000;

/// Errors of the mock vault.
#[derive(Copy, Clone, Debug, PartialEq, Eq, Structural, PartialOrd, Ord)]
pub enum VaultError {
    /// Deposit operation failed
    DepositFailed,
    /// Withdrawal operation failed
    WithdrawalFailed,
    /// Invalid shares amount
    InvalidShares,
}

impl VaultError {
    /// The error's numeric code as the contract interface reports it.
    pub open spec fn spec_code(self) -> u32 {
        match self {
            VaultError::DepositFailed => 1,
            VaultError::WithdrawalFailed => 2,
            VaultError::InvalidShares => 3,
        }
    }

    /// The error's numeric code: 1, 2 and 3 in declaration order.
    pub fn code(&self) -> (c: u32)
        ensures
            c == self.spec_code(),
    {
        match self {
            VaultError::DepositFailed => 1,
            VaultError::WithdrawalFailed => 2,
            VaultError::InvalidShares => 3,
        }
    }
}

/// The abstract state of a vault.
pub struct VaultModel {
    /// Fixed-point yield multiplier (1_000_000 = 1.0x).
    pub yield_multiplier: u64,
    /// Shares outstanding, as the vault counts them.
    pub total_shares: u64,
    /// Sum of all accepted deposits.
    pub total_deposited: i128,
    /// Share balance of each player that has a stored balance.
    pub player_shares: Map<Seq<u8>, u64>,
}

impl VaultModel {
    /// A fresh vault: nothing stored, so every entry reads as its default.
    pub open spec fn fresh() -> VaultModel {
        VaultModel {
            yield_multiplier: DEFAULT_YIELD_MULTIPLIER,
            total_shares: 0,
            total_deposited: 0,
            player_shares: Map::empty(),
        }
    }

    /// Every reachable vault state has a non-zero multiplier and finitely many
    /// stored balances.
    pub open spec fn valid(self) -> bool {
        &&& self.yield_multiplier > 0
        &&& self.player_shares.dom().finite()
    }

    /// A player's share balance; 0 when none is stored.
    pub open spec fn shares_of(self, player: Seq<u8>) -> u64 {
        if self.player_shares.dom().contains(player) {
            self.player_shares[player]
        } else {
            0
        }
    }

    /// This state with the player's balance set to `shares`.
    pub open spec fn with_player_shares(self, player: Seq<u8>, shares: u64) -> VaultModel {
        VaultModel {
            yield_multiplier: self.yield_multiplier,
            total_shares: self.total_shares,
            total_deposited: self.total_deposited,
            player_shares: self.player_shares.insert(player, shares),
        }
    }

    /// Shares that a deposit of `amount` receives at the current multiplier.
    pub open spec fn deposit_shares(self, amount: i128) -> u64 {
        spec_amount_to_shares(amount as int, self.yield_multiplier as int) as u64
    }

    /// A deposit of `amount` by `player` stays in range: the scaled amount fits in
    /// 128 unsigned bits, the shares it buys fit in a `u64`, and, where the deposit
    /// is accepted, the new totals and the new balance fit their types.
    pub open spec fn deposit_in_range(self, player: Seq<u8>, amount: i128) -> bool {
        amount > 0 ==> {
            &&& amount * SCALE <= u128::MAX
            &&& amount * SCALE / (self.yield_multiplier as int) <= u64::MAX
            &&& self.deposit_shares(amount) != 0 ==> {
                &&& self.total_shares + self.deposit_shares(amount) <= u64::MAX
                &&& self.total_deposited + amount <= i128::MAX
                &&& self.shares_of(player) + self.deposit_shares(amount) <= u64::MAX
            }
        }
    }

    /// Deposit `amount` for `player`: the new state and the result.
    ///
    /// A non-positive amount, or one that buys no shares, fails with
    /// `DepositFailed` and changes nothing. Otherwise the shares are added to the
    /// total and to the player's balance, the amount to the total deposited, and
    /// the shares are returned.
    pub open spec fn deposit(self, player: Seq<u8>, amount: i128) -> (VaultModel, Result<u64, VaultError>) {
        if amount <= 0 {
            (self, Err(VaultError::DepositFailed))
        } else if self.deposit_shares(amount) == 0 {
            (self, Err(VaultError::DepositFailed))
        } else {
            let shares = self.deposit_shares(amount);
            (
                VaultModel {
                    yield_multiplier: self.yield_multiplier,
                    total_shares: (self.total_shares + shares) as u64,
                    total_deposited: (self.total_deposited + amount) as i128,
                    player_shares: self.player_shares.insert(
                        player,
                        (self.shares_of(player) + shares) as u64,
                    ),
                },
                Ok(shares),
            )
        }
    }

    /// Amount that burning `shares` pays out at the current multiplier.
    pub open spec fn withdraw_amount(self, shares: u64) -> int {
        spec_shares_to_amount(shares as int, self.yield_multiplier as int)
    }

    /// Withdraw `shares` for `player`: the new state and the result.
    ///
    /// Zero shares, or more than the player holds, fail with `InvalidShares`; shares
    /// worth nothing at the current multiplier fail with `WithdrawalFailed`; a
    /// failure changes nothing. Otherwise the shares leave the player's balance and
    /// the total (which stops at 0), and their value is returned. The total
    /// deposited is not changed.
    pub open spec fn withdraw(self, player: Seq<u8>, shares: u64) -> (VaultModel, Result<i128, VaultError>) {
        if shares == 0 {
            (self, Err(VaultError::InvalidShares))
        } else if self.shares_of(player) < shares {
            (self, Err(VaultError::InvalidShares))
        } else if self.withdraw_amount(shares) <= 0 {
            (self, Err(VaultError::WithdrawalFailed))
        } else {
            (
                VaultModel {
                    yield_multiplier: self.yield_multiplier,
                    total_shares: if self.total_shares >= shares {
                        (self.total_shares - shares) as u64
                    } else {
                        0
                    },
                    total_deposited: self.total_deposited,
                    player_shares: self.player_shares.insert(
                        player,
                        (self.shares_of(player) - shares) as u64,
                    ),
                },
                Ok(self.withdraw_amount(shares) as i128),
            )
        }
    }

    /// Set the multiplier: 0 fails with `DepositFailed` and changes nothing.
    pub open spec fn set_yield_multiplier(self, multiplier: u64) -> (VaultModel, Result<(), VaultError>) {
        if multiplier == 0 {
            (self, Err(VaultError::DepositFailed))
        } else {
            (
                VaultModel {
                    yield_multiplier: multiplier,
                    total_shares: self.total_shares,
                    total_deposited: self.total_deposited,
                    player_shares: self.player_shares,
                },
                Ok(()),
            )
        }
    }

    /// Initialization: the multiplier back to 1.0x, both totals to 0; player
    /// balances are kept.
    pub open spec fn initialize(self) -> VaultModel {
        VaultModel {
            yield_multiplier: DEFAULT_YIELD_MULTIPLIER,
            total_shares: 0,
            total_deposited: 0,
            player_shares: self.player_shares,
        }
    }
}

/// A fresh vault reads as 1.0x with both totals at 0 and no stored balances.
pub proof fn lemma_fresh_vault_defaults(player: Seq<u8>)
    ensures
        VaultModel::fresh().yield_multiplier == 1_000_000,
        VaultModel::fresh().total_shares == 0,
        VaultModel::fresh().total_deposited == 0,
        VaultModel::fresh().shares_of(player) == 0,
        VaultModel::fresh().valid(),
{
}

/// Reading a balance after storing it gives the stored value, and other players'
/// balances read as before.
pub proof fn lemma_balance_read_after_write(
    m: VaultModel,
    player: Seq<u8>,
    other: Seq<u8>,
    shares: u64,
)
    ensures
        m.with_player_shares(player, shares).shares_of(player) == shares,
        other != player ==> m.with_player_shares(player, shares).shares_of(other) == m.shares_of(
            other,
        ),
{
}

/// A deposit is in range exactly when nothing it computes overflows: the amount
/// is not positive, or the scaled amount fits in 128 unsigned bits, the shares it
/// buys fit in a `u64`, and, if it buys any, the new share total, the new total
/// deposited and the depositor's new balance fit their types.
pub proof fn lemma_deposit_in_range_exact(m: VaultModel, player: Seq<u8>, amount: i128)
    requires
        m.valid(),
    ensures
        m.deposit_in_range(player, amount) <==> (amount <= 0 || {
            let shares = amount * 1_000_000 / (m.yield_multiplier as int);
            &&& amount * 1_000_000 <= u128::MAX
            &&& shares <= u64::MAX
            &&& shares > 0 ==> {
                &&& m.total_shares + shares <= u64::MAX
                &&& m.total_deposited + amount <= i128::MAX
                &&& m.shares_of(player) + shares <= u64::MAX
            }
        }),
{
}

/// What a deposit answers, whatever the multiplier and the totals: it is
/// refused with `DepositFailed`, changing nothing, exactly when the amount is not
/// positive or buys no share (`amount * 1_000_000 < multiplier`). Otherwise it
/// is accepted with `amount * 1_000_000 / multiplier` shares, which are added to
/// the total and to the depositor's balance, while the amount is added to the
/// total deposited and the multiplier and other balances stay as they were.
pub proof fn lemma_deposit_outcome(m: VaultModel, player: Seq<u8>, other: Seq<u8>, amount: i128)
    requires
        m.valid(),
        m.deposit_in_range(player, amount),
    ensures
        ({
            let (after, result) = m.deposit(player, amount);
            let shares = amount * 1_000_000 / (m.yield_multiplier as int);
            if amount > 0 && amount * 1_000_000 >= m.yield_multiplier {
                &&& result is Ok
                &&& result->Ok_0 == shares
                &&& after.total_shares == m.total_shares + shares
                &&& after.total_deposited == m.total_deposited + amount
                &&& after.shares_of(player) == m.shares_of(player) + shares
                &&& after.yield_multiplier == m.yield_multiplier
                &&& (other != player ==> after.shares_of(other) == m.shares_of(other))
            } else {
                &&& result == Err::<u64, VaultError>(VaultError::DepositFailed)
                &&& after == m
            }
        }),
{
    let mult = m.yield_multiplier as int;
    if amount > 0 {
        vstd::arithmetic::div_mod::lemma_div_by_multiple(1, mult);
        if amount * 1_000_000 >= mult {
            vstd::arithmetic::div_mod::lemma_div_is_ordered(mult, amount * 1_000_000, mult);
        } else {
            vstd::arithmetic::div_mod::lemma_basic_div(amount * 1_000_000, mult);
        }
    }
}

/// What a withdrawal answers: zero shares, or more than the player holds, are
/// refused with `InvalidShares`; shares worth less than one stroop
/// (`shares * multiplier < 1_000_000`) are refused with `WithdrawalFailed`; a
/// refusal changes nothing. Otherwise the withdrawal pays
/// `shares * multiplier / 1_000_000`, takes the shares from the player's balance
/// and from the total (which stops at 0), and leaves the multiplier, the total
/// deposited and the other balances as they were.
pub proof fn lemma_withdraw_outcome(m: VaultModel, player: Seq<u8>, other: Seq<u8>, shares: u64)
    ensures
        ({
            let (after, result) = m.withdraw(player, shares);
            let paid = shares * m.yield_multiplier / 1_000_000int;
            if shares == 0 || m.shares_of(player) < shares {
                &&& result == Err::<i128, VaultError>(VaultError::InvalidShares)
                &&& after == m
            } else if shares * m.yield_multiplier < 1_000_000 {
                &&& result == Err::<i128, VaultError>(VaultError::WithdrawalFailed)
                &&& after == m
            } else {
                &&& result is Ok
                &&& result->Ok_0 == paid
                &&& after.shares_of(player) == m.shares_of(player) - shares
                &&& after.total_shares == (if m.total_shares >= shares {
                    m.total_shares - shares
                } else {
                    0
                })
                &&& after.total_deposited == m.total_deposited
                &&& after.yield_multiplier == m.yield_multiplier
                &&& (other != player ==> after.shares_of(other) == m.shares_of(other))
            }
        }),
{
    let product = shares * m.yield_multiplier;
    lemma_payout_fits(shares, m.yield_multiplier);
    vstd::arithmetic::div_mod::lemma_div_by_multiple(1, 1_000_000);
    if product >= 1_000_000 {
        vstd::arithmetic::div_mod::lemma_div_is_ordered(1_000_000, product, 1_000_000);
    } else {
        vstd::arithmetic::div_mod::lemma_basic_div(product, 1_000_000);
    }
}

/// Setting the multiplier: every non-zero multiplier, above or below 1.0x and
/// whatever the state, is accepted and becomes exactly the vault's multiplier,
/// with totals and balances unchanged; 0 is refused with `DepositFailed` and
/// changes nothing.
pub proof fn lemma_set_yield_multiplier_outcome(m: VaultModel, player: Seq<u8>, multiplier: u64)
    ensures
        ({
            let (after, result) = m.set_yield_multiplier(multiplier);
            if multiplier != 0 {
                &&& result == Ok::<(), VaultError>(())
                &&& after.yield_multiplier == multiplier
                &&& after.total_shares == m.total_shares
                &&& after.total_deposited == m.total_deposited
                &&& after.shares_of(player) == m.shares_of(player)
                &&& after.player_shares == m.player_shares
            } else {
                &&& result == Err::<(), VaultError>(VaultError::DepositFailed)
                &&& after == m
            }
        }),
{
}

/// Initialization from any state: the multiplier becomes 1.0x and both totals
/// 0, whatever was stored before; player balances are kept.
pub proof fn lemma_initialize_outcome(m: VaultModel, player: Seq<u8>)
    ensures
        m.initialize().yield_multiplier == 1_000_000,
        m.initialize().total_shares == 0,
        m.initialize().total_deposited == 0,
        m.initialize().player_shares == m.player_shares,
        m.initialize().shares_of(player) == m.shares_of(player),
{
}

/// A rejected request changes nothing: a deposit, withdrawal or multiplier update
/// that returns an error leaves the vault state as it was.
pub proof fn lemma_rejection_changes_nothing(
    m: VaultModel,
    player: Seq<u8>,
    amount: i128,
    shares: u64,
    multiplier: u64,
)
    ensures
        m.deposit(player, amount).1 is Err ==> m.deposit(player, amount).0 == m,
        m.withdraw(player, shares).1 is Err ==> m.withdraw(player, shares).0 == m,
        m.set_yield_multiplier(multiplier).1 is Err ==> m.set_yield_multiplier(multiplier).0 == m,
{
}

/// Players' balances are independent: a deposit or withdrawal by one player
/// leaves every other player's balance unchanged.
pub proof fn lemma_players_independent(
    m: VaultModel,
    player: Seq<u8>,
    other: Seq<u8>,
    amount: i128,
    shares: u64,
)
    requires
        player != other,
    ensures
        m.deposit(player, amount).0.shares_of(other) == m.shares_of(other),
        m.withdraw(player, shares).0.shares_of(other) == m.shares_of(other),
{
}

/// Share accounting: an accepted deposit adds the shares it returns both to the
/// total and to the depositor's balance; an accepted withdrawal takes the burnt
/// shares from the player's balance and from the total, which stops at 0.
pub proof fn lemma_share_accounting(m: VaultModel, player: Seq<u8>, amount: i128, shares: u64)
    requires
        m.deposit_in_range(player, amount),
    ensures
        m.deposit(player, amount).1 matches Ok(s) ==> {
            &&& m.deposit(player, amount).0.total_shares == m.total_shares + s
            &&& m.deposit(player, amount).0.shares_of(player) == m.shares_of(player) + s
            &&& m.deposit(player, amount).0.total_deposited == m.total_deposited + amount
        },
        m.withdraw(player, shares).1 is Ok ==> {
            &&& m.withdraw(player, shares).0.shares_of(player) == m.shares_of(player) - shares
            &&& m.withdraw(player, shares).0.total_shares == if m.total_shares >= shares {
                m.total_shares - shares
            } else {
                0
            }
            &&& m.withdraw(player, shares).0.total_deposited == m.total_deposited
        },
{
}

/// Depositing and then withdrawing the shares received, at an unchanged
/// multiplier, restores the player's balance and the share total, and pays back
/// the deposit less a rounding loss whose product with `SCALE` is at most
/// `multiplier + SCALE - 2` (at most 2 stroops up to 2.0x). The withdrawal is
/// accepted exactly when the shares are worth at least one stroop.
pub proof fn lemma_deposit_withdraw_round_trip(m: VaultModel, player: Seq<u8>, amount: i128)
    requires
        m.valid(),
        m.deposit_in_range(player, amount),
        m.deposit(player, amount).1 is Ok,
    ensures
        ({
            let after = m.deposit(player, amount).0;
            let s = m.deposit(player, amount).1->Ok_0;
            &&& (after.withdraw(player, s).1 is Ok <==> s * m.yield_multiplier >= SCALE)
            &&& after.withdraw(player, s).1 matches Ok(paid) ==> {
                &&& paid <= amount
                &&& (amount - paid) * SCALE <= m.yield_multiplier + SCALE - 2
                &&& after.withdraw(player, s).0.shares_of(player) == m.shares_of(player)
                &&& after.withdraw(player, s).0.total_shares == m.total_shares
                &&& after.withdraw(player, s).0.yield_multiplier == m.yield_multiplier
            }
        }),
{
    let s = m.deposit_shares(amount);
    lemma_round_trip_rounding(amount as int, m.yield_multiplier as int);
    let after = m.deposit(player, amount).0;
    assert(after.shares_of(player) == m.shares_of(player) + s);
    let paid = spec_shares_to_amount(s as int, m.yield_multiplier as int);
    assert(paid > 0 <==> s * m.yield_multiplier >= SCALE) by {
        vstd::arithmetic::div_mod::lemma_div_by_multiple(1, SCALE as int);
        if s * m.yield_multiplier >= SCALE {
            vstd::arithmetic::div_mod::lemma_div_is_ordered(
                SCALE as int,
                s * m.yield_multiplier,
                SCALE as int,
            );
        } else {
            vstd::arithmetic::div_mod::lemma_basic_div(s * m.yield_multiplier, SCALE as int);
        }
    }
}

/// Without yield (a multiplier of 1.0x), an amount that fits in 64 bits buys
/// exactly as many shares, and withdrawing them pays the amount back in full.
pub proof fn lemma_no_yield_round_trip(m: VaultModel, player: Seq<u8>, amount: i128)
    requires
        m.yield_multiplier == SCALE,
        0 < amount <= u64::MAX,
        m.deposit_in_range(player, amount),
    ensures
        m.deposit(player, amount).1 == Ok::<u64, VaultError>(amount as u64),
        m.deposit(player, amount).0.withdraw(player, amount as u64).1 == Ok::<i128, VaultError>(
            amount,
        ),
{
    lemma_no_yield_identity(amount as int);
}

/// Yield raises payouts: raising the multiplier never lowers what a withdrawal
/// pays, and a withdrawal accepted before the raise is accepted after it.
pub proof fn lemma_yield_raises_payout(m: VaultModel, player: Seq<u8>, shares: u64, higher: u64)
    requires
        m.yield_multiplier <= higher,
    ensures
        m.withdraw(player, shares).1 matches Ok(before) ==> {
            let raised = m.set_yield_multiplier(higher).0;
            raised.withdraw(player, shares).1 matches Ok(after) && before <= after
        },
{
    lemma_payout_monotone_in_multiplier(shares as int, m.yield_multiplier as int, higher as int);
    lemma_payout_fits(shares, m.yield_multiplier);
    lemma_payout_fits(shares, higher);
}

/// Sum of the balances stored under `players`.
pub open spec fn balance_sum(players: Set<Seq<u8>>, shares: Map<Seq<u8>, u64>) -> int
    decreases players.len(),
    when players.finite()
{
    if players.len() == 0 {
        0
    } else {
        let player = players.choose();
        shares[player] + balance_sum(players.remove(player), shares)
    }
}

impl VaultModel {
    /// Sum of all stored player balances.
    pub open spec fn balances_total(self) -> int {
        balance_sum(self.player_shares.dom(), self.player_shares)
    }
}

/// Any one player can be taken out of the sum first.
proof fn lemma_balance_sum_remove(players: Set<Seq<u8>>, shares: Map<Seq<u8>, u64>, player: Seq<u8>)
    requires
        players.finite(),
        players.contains(player),
    ensures
        balance_sum(players, shares) == shares[player] + balance_sum(players.remove(player), shares),
    decreases players.len(),
{
    let first = players.choose();
    if first != player {
        lemma_balance_sum_remove(players.remove(first), shares, player);
        lemma_balance_sum_remove(players.remove(player), shares, first);
        assert(players.remove(first).remove(player) =~= players.remove(player).remove(first));
    }
}

/// The sum only reads the balances of the players it ranges over.
proof fn lemma_balance_sum_agree(
    players: Set<Seq<u8>>,
    shares: Map<Seq<u8>, u64>,
    other: Map<Seq<u8>, u64>,
)
    requires
        players.finite(),
        forall|p: Seq<u8>| players.contains(p) ==> shares[p] == other[p],
    ensures
        balance_sum(players, shares) == balance_sum(players, other),
    decreases players.len(),
{
    if players.len() > 0 {
        let first = players.choose();
        lemma_balance_sum_agree(players.remove(first), shares, other);
    }
}

/// Every stored balance is part of the sum, and the sum is never negative.
proof fn lemma_balance_sum_bounds(players: Set<Seq<u8>>, shares: Map<Seq<u8>, u64>, player: Seq<u8>)
    requires
        players.finite(),
    ensures
        0 <= balance_sum(players, shares),
        players.contains(player) ==> shares[player] <= balance_sum(players, shares),
    decreases players.len(),
{
    if players.len() > 0 {
        let first = players.choose();
        lemma_balance_sum_bounds(players.remove(first), shares, player);
        if players.contains(player) {
            lemma_balance_sum_remove(players, shares, player);
            lemma_balance_sum_bounds(players.remove(player), shares, player);
        }
    }
}

/// Setting one player's balance changes the total of balances by the difference.
proof fn lemma_balances_total_update(m: VaultModel, player: Seq<u8>, shares: u64)
    requires
        m.valid(),
    ensures
        m.with_player_shares(player, shares).valid(),
        m.with_player_shares(player, shares).balances_total() == m.balances_total() - m.shares_of(
            player,
        ) + shares,
        m.shares_of(player) <= m.balances_total(),
{
    let dom = m.player_shares.dom();
    let updated = m.player_shares.insert(player, shares);
    lemma_balance_sum_bounds(dom, m.player_shares, player);
    assert(updated.dom().remove(player) =~= dom.remove(player));
    lemma_balance_sum_agree(dom.remove(player), updated, m.player_shares);
    lemma_balance_sum_remove(updated.dom(), updated, player);
    if dom.contains(player) {
        lemma_balance_sum_remove(dom, m.player_shares, player);
    } else {
        assert(dom.remove(player) =~= dom);
    }
}

/// Deposits keep the share total equal to the sum of the players' balances: if
/// it was before the call, it is after it, whether the deposit is accepted or not.
pub proof fn lemma_deposit_keeps_total_shares_equal_to_balances(
    m: VaultModel,
    player: Seq<u8>,
    amount: i128,
)
    requires
        m.valid(),
        m.deposit_in_range(player, amount),
        m.balances_total() == m.total_shares,
    ensures
        m.deposit(player, amount).0.valid(),
        m.deposit(player, amount).0.balances_total() == m.deposit(player, amount).0.total_shares,
{
    if m.deposit(player, amount).1 is Ok {
        let s = m.deposit_shares(amount);
        lemma_balances_total_update(m, player, (m.shares_of(player) + s) as u64);
    }
}

/// Withdrawals keep the share total equal to the sum of the players' balances,
/// whether accepted or not; when they are, the total falls by exactly the shares
/// burnt, without stopping at 0.
pub proof fn lemma_withdraw_keeps_total_shares_equal_to_balances(
    m: VaultModel,
    player: Seq<u8>,
    shares: u64,
)
    requires
        m.valid(),
        m.balances_total() == m.total_shares,
    ensures
        m.withdraw(player, shares).0.valid(),
        m.withdraw(player, shares).0.balances_total() == m.withdraw(player, shares).0.total_shares,
        m.withdraw(player, shares).1 is Ok ==> m.withdraw(player, shares).0.total_shares
            == m.total_shares - shares,
{
    if m.withdraw(player, shares).1 is Ok {
        lemma_balances_total_update(m, player, (m.shares_of(player) - shares) as u64);
    }
}

/// Splitting a deposit never earns more shares: two accepted deposits by one
/// player at an unchanged multiplier buy at most the shares of one deposit of the
/// two amounts together.
pub proof fn lemma_split_deposit_no_gain(m: VaultModel, player: Seq<u8>, first: i128, second: i128)
    requires
        m.valid(),
        m.deposit(player, first).1 is Ok,
        m.deposit(player, first).0.deposit(player, second).1 is Ok,
    ensures
        m.deposit(player, first).1->Ok_0 + m.deposit(player, first).0.deposit(
            player,
            second,
        ).1->Ok_0 <= spec_amount_to_shares(first + second, m.yield_multiplier as int),
{
    lemma_split_buys_no_more(first as int, second as int, m.yield_multiplier as int);
}

/// Whether two byte strings are equal.
fn same_bytes(a: &Vec<u8>, b: &[u8]) -> (r: bool)
    ensures
        r == (a@ == b@),
{
    if a.len() != b.len() {
        return false;
    }
    let n = a.len();
    let mut i: usize = 0;
    while i < n
        invariant
            n == a@.len(),
            n == b@.len(),
            i <= n,
            forall|j: int| 0 <= j < i ==> a@[j] == b@[j],
        decreases n - i,
    {
        if a[i] != b[i] {
            return false;
        }
        i = i + 1;
    }
    assert(a@ =~= b@);
    true
}

/// The players' share balances, one entry per player.
struct ShareBook {
    players: Vec<Vec<u8>>,
    balances: Vec<u64>,
    entries: Ghost<Map<Seq<u8>, u64>>,
}

impl ShareBook {
    /// `players` and `balances` are parallel, no player occurs twice, and
    /// `entries` maps each player to its balance and holds nothing else.
    spec fn wf(&self) -> bool {
        &&& self.players@.len() == self.balances@.len()
        &&& self.entries@.dom().finite()
        &&& forall|i: int, j: int|
            0 <= i < self.players@.len() && 0 <= j < self.players@.len() && i != j
                ==> #[trigger] self.players@[i]@ != #[trigger] self.players@[j]@
        &&& forall|i: int|
            0 <= i < self.players@.len() ==> {
                &&& self.entries@.dom().contains(#[trigger] self.players@[i]@)
                &&& self.entries@[self.players@[i]@] == self.balances@[i]
            }
        &&& forall|k: Seq<u8>|
            #[trigger] self.entries@.dom().contains(k) ==> exists|i: int|
                0 <= i < self.players@.len() && self.players@[i]@ == k
    }

    spec fn view(&self) -> Map<Seq<u8>, u64> {
        self.entries@
    }

    fn new() -> (book: ShareBook)
        ensures
            book.wf(),
            book.view() == Map::<Seq<u8>, u64>::empty(),
    {
        ShareBook { players: Vec::new(), balances: Vec::new(), entries: Ghost(Map::empty()) }
    }

    /// Position of `player`'s entry, if it has one.
    fn find(&self, player: &[u8]) -> (idx: Option<usize>)
        requires
            self.wf(),
        ensures
            match idx {
                Some(i) => i < self.players@.len() && self.players@[i as int]@ == player@,
                None => !self.view().dom().contains(player@),
            },
    {
        let n = self.players.len();
        let mut i: usize = 0;
        while i < n
            invariant
                self.wf(),
                n == self.players@.len(),
                i <= n,
                forall|j: int| 0 <= j < i ==> self.players@[j]@ != player@,
            decreases n - i,
        {
            if same_bytes(&self.players[i], player) {
                return Some(i);
            }
            i = i + 1;
        }
        None
    }

    /// `player`'s balance; 0 when it has no entry.
    fn get(&self, player: &[u8]) -> (shares: u64)
        requires
            self.wf(),
        ensures
            shares == (if self.view().dom().contains(player@) {
                self.view()[player@]
            } else {
                0
            }),
    {
        match self.find(player) {
            Some(i) => self.balances[i],
            None => 0,
        }
    }

    /// Store `shares` as `player`'s balance.
    fn set(&mut self, player: &[u8], shares: u64)
        requires
            old(self).wf(),
        ensures
            final(self).wf(),
            final(self).view() == old(self).view().insert(player@, shares),
    {
        match self.find(player) {
            Some(i) => {
                self.balances.set(i, shares);
                self.entries = Ghost(self.entries@.insert(player@, shares));
                assert forall|k: Seq<u8>| #[trigger] self.entries@.dom().contains(k) implies exists|
                    j: int,
                | 0 <= j < self.players@.len() && self.players@[j]@ == k by {
                    if k != player@ {
                        assert(old(self).entries@.dom().contains(k));
                        let j = choose|j: int|
                            0 <= j < old(self).players@.len() && old(self).players@[j]@ == k;
                        assert(self.players@[j]@ == k);
                    } else {
                        assert(self.players@[i as int]@ == k);
                    }
                }
            },
            None => {
                let key = slice_to_vec(player);
                self.players.push(key);
                self.balances.push(shares);
                self.entries = Ghost(self.entries@.insert(player@, shares));
                let ghost last = self.players@.len() - 1;
                assert(self.players@[last]@ == player@);
                assert forall|k: Seq<u8>| #[trigger] self.entries@.dom().contains(k) implies exists|
                    j: int,
                | 0 <= j < self.players@.len() && self.players@[j]@ == k by {
                    if k != player@ {
                        assert(old(self).entries@.dom().contains(k));
                        let j = choose|j: int|
                            0 <= j < old(self).players@.len() && old(self).players@[j]@ == k;
                        assert(self.players@[j]@ == k);
                    } else {
                        assert(self.players@[last]@ == k);
                    }
                }
            },
        }
    }
}

/// A yield vault: the state of the mock vault contract, and its operations.
pub struct MockYieldVault {
    yield_multiplier: u64,
    total_shares: u64,
    total_deposited: i128,
    book: ShareBook,
}

impl View for MockYieldVault {
    type V = VaultModel;

    closed spec fn view(&self) -> VaultModel {
        VaultModel {
            yield_multiplier: self.yield_multiplier,
            total_shares: self.total_shares,
            total_deposited: self.total_deposited,
            player_shares: self.book.view(),
        }
    }
}

impl MockYieldVault {
    #[verifier::type_invariant]
    spec fn inv(self) -> bool {
        &&& self.yield_multiplier > 0
        &&& self.book.wf()
    }

    /// A vault with nothing stored yet.
    pub fn new() -> (vault: MockYieldVault)
        ensures
            vault@ == VaultModel::fresh(),
            vault@.valid(),
    {
        MockYieldVault {
            yield_multiplier: DEFAULT_YIELD_MULTIPLIER,
            total_shares: 0,
            total_deposited: 0,
            book: ShareBook::new(),
        }
    }

    /// A vault rebuilt from stored values: the multiplier, the two totals, and one
    /// player's balance.
    pub fn from_stored(
        yield_multiplier: u64,
        total_shares: u64,
        total_deposited: i128,
        player: &[u8],
        player_shares: u64,
    ) -> (vault: MockYieldVault)
        requires
            yield_multiplier > 0,
        ensures
            vault@ == (VaultModel {
                yield_multiplier,
                total_shares,
                total_deposited,
                player_shares: Map::empty().insert(player@, player_shares),
            }),
            vault@.valid(),
    {
        let mut book = ShareBook::new();
        book.set(player, player_shares);
        MockYieldVault { yield_multiplier, total_shares, total_deposited, book }
    }

    /// Store `shares` as `player`'s balance.
    fn store_player_shares(&mut self, player: &[u8], shares: u64)
        ensures
            final(self)@ == old(self)@.with_player_shares(player@, shares),
    {
        proof {
            use_type_invariant(&*self);
        }
        let mut book = ShareBook::new();
        std::mem::swap(&mut book, &mut self.book);
        book.set(player, shares);
        self.book = book;
    }

    /// Initialize the vault: the multiplier back to 1.0x and both totals to 0.
    /// Player balances are kept.
    pub fn initialize(&mut self)
        ensures
            final(self)@ == old(self)@.initialize(),
            final(self)@.valid(),
    {
        proof {
            use_type_invariant(&*self);
        }
        self.yield_multiplier = DEFAULT_YIELD_MULTIPLIER;
        self.total_shares = 0;
        self.total_deposited = 0;
    }

    /// Deposit funds into the vault, receiving shares.
    ///
    /// Shares = (amount * SCALE) / yield_multiplier. At 1.0x, shares = amount; at
    /// 1.05x, fewer shares than the amount.
    pub fn deposit(&mut self, player: &[u8], amount: i128) -> (r: Result<u64, VaultError>)
        requires
            old(self)@.deposit_in_range(player@, amount),
        ensures
            (final(self)@, r) == old(self)@.deposit(player@, amount),
            final(self)@.valid(),
    {
        proof {
            use_type_invariant(&*self);
        }
        if amount <= 0 {
            return Err(VaultError::DepositFailed);
        }
        let multiplier = self.get_yield_multiplier();
        let shares = amount_to_shares(amount, multiplier);
        if shares == 0 {
            return Err(VaultError::DepositFailed);
        }
        let total_shares = self.get_total_shares();
        self.total_shares = total_shares + shares;
        let total_deposited = self.get_total_deposited();
        self.total_deposited = total_deposited + amount;
        let player_shares = self.get_player_shares(player);
        self.store_player_shares(player, player_shares + shares);
        Ok(shares)
    }

    /// Whether a deposit of `amount` by `player` runs without an arithmetic
    /// overflow, which [`Self::deposit`] requires.
    pub fn deposit_in_range(&self, player: &[u8], amount: i128) -> (fits: bool)
        ensures
            fits == self@.deposit_in_range(player@, amount),
    {
        proof {
            use_type_invariant(self);
        }
        if amount <= 0 {
            return true;
        }
        let limit: u128 = u128::MAX / SCALE as u128;
        if amount as u128 > limit {
            proof {
                vstd::arithmetic::div_mod::lemma_fundamental_div_mod(u128::MAX as int, SCALE as int);
                vstd::arithmetic::div_mod::lemma_mod_bound(u128::MAX as int, SCALE as int);
            }
            return false;
        }
        proof {
            vstd::arithmetic::div_mod::lemma_fundamental_div_mod(u128::MAX as int, SCALE as int);
        }
        let scaled: u128 = amount as u128 * SCALE as u128;
        if scaled / self.yield_multiplier as u128 > u64::MAX as u128 {
            return false;
        }
        let shares = amount_to_shares(amount, self.yield_multiplier);
        if shares == 0 {
            return true;
        }
        let player_shares = self.get_player_shares(player);
        self.total_shares.checked_add(shares).is_some()
            && self.total_deposited.checked_add(amount).is_some()
            && player_shares.checked_add(shares).is_some()
    }

    /// Withdraw funds from the vault by burning shares.
    ///
    /// Amount = (shares * yield_multiplier) / SCALE; at 1.05x, amount = shares * 1.05.
    pub fn withdraw(&mut self, player: &[u8], shares: u64) -> (r: Result<i128, VaultError>)
        ensures
            (final(self)@, r) == old(self)@.withdraw(player@, shares),
            final(self)@.valid(),
    {
        proof {
            use_type_invariant(&*self);
        }
        if shares == 0 {
            return Err(VaultError::InvalidShares);
        }
        let player_shares = self.get_player_shares(player);
        if player_shares < shares {
            return Err(VaultError::InvalidShares);
        }
        let multiplier = self.get_yield_multiplier();
        let amount = shares_to_amount(shares, multiplier);
        if amount <= 0 {
            return Err(VaultError::WithdrawalFailed);
        }
        let total_shares = self.get_total_shares();
        self.total_shares = total_shares.saturating_sub(shares);
        self.store_player_shares(player, player_shares - shares);
        Ok(amount)
    }

    /// Current yield multiplier.
    pub fn get_yield_multiplier(&self) -> (multiplier: u64)
        ensures
            multiplier == self@.yield_multiplier,
            self@.valid(),
    {
        proof {
            use_type_invariant(self);
        }
        self.yield_multiplier
    }

    /// Set the yield multiplier (fixed point: 1_000_000 = 1.0x, 1_050_000 = 5%
    /// yield). A multiplier of 0 is rejected.
    pub fn set_yield_multiplier(&mut self, multiplier: u64) -> (r: Result<(), VaultError>)
        ensures
            (final(self)@, r) == old(self)@.set_yield_multiplier(multiplier),
            final(self)@.valid(),
    {
        proof {
            use_type_invariant(&*self);
        }
        if multiplier == 0 {
            return Err(VaultError::DepositFailed);
        }
        self.yield_multiplier = multiplier;
        Ok(())
    }

    /// Total shares outstanding.
    pub fn get_total_shares(&self) -> (total: u64)
        ensures
            total == self@.total_shares,
    {
        self.total_shares
    }

    /// Total amount deposited.
    pub fn get_total_deposited(&self) -> (total: i128)
        ensures
            total == self@.total_deposited,
    {
        self.total_deposited
    }

    /// A player's current share balance.
    pub fn get_player_shares(&self, player: &[u8]) -> (shares: u64)
        ensures
            shares == self@.shares_of(player@),
    {
        proof {
            use_type_invariant(self);
        }
        self.book.get(player)
    }
}

} // verus!
