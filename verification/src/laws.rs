//! The engine's global laws, stated and proved over the same spec functions
//! its operation contracts use.

use vstd::prelude::*;
use crate::math::{
    shares_for_assets, assets_for_shares, performance_fee, lemma_div_cross_ordered,
    lemma_div_subadditive, lemma_assets_within_total,
};
use crate::positions::{UserEntry, sum_shares, lemma_sum_shares_nonneg};
use crate::requests::locked_shares;
use crate::vault::VaultState;
use vstd::arithmetic::div_mod::{
    lemma_fundamental_div_mod, lemma_remainder_lower, lemma_div_pos_is_pos,
    lemma_div_multiples_vanish, lemma_div_is_ordered,
};
use vstd::arithmetic::mul::{
    lemma_mul_basics, lemma_mul_is_commutative, lemma_mul_nonnegative,
    lemma_mul_is_distributive_add_other_way,
};

verus! {

/// Combined base-asset value of every listed balance at the ratio
/// `total_assets : total_shares`.
pub open spec fn sum_converted(s: Seq<UserEntry>, total_shares: int, total_assets: int) -> int
    decreases s.len(),
{
    if s.len() == 0 {
        0
    } else {
        sum_converted(s.drop_last(), total_shares, total_assets) + assets_for_shares(
            s.last().shares as int,
            total_shares,
            total_assets,
        )
    }
}

/// Conservation. In a well-formed vault the spendable balances plus the
/// shares locked in uncompleted withdrawal requests add up to exactly
/// `totalShares` — the locked shares are excluded from the balances but
/// still counted in the supply while a request window is open. And the
/// combined value of all balances never exceeds `totalAssets`: the
/// per-balance rounding is the only gap, and it always favours the pool.
/// Every operation's contract ends in a well-formed state, so this holds
/// across all sequences of deposits and withdrawals.
pub proof fn lemma_conservation(v: VaultState)
    requires
        v.wf(),
    ensures
        sum_shares(v.users@) + locked_shares(v.requests@) == v.total_shares,
        sum_converted(v.users@, v.total_shares as int, v.total_assets_spec())
            <= v.total_assets_spec(),
{
    crate::requests::lemma_locked_nonneg(v.requests@);
    lemma_sum_converted_le_total(v.users@, v.total_shares as int, v.total_assets_spec());
}

/// The combined value of balances summing to at most the share supply is at
/// most the asset total.
pub proof fn lemma_sum_converted_le_total(s: Seq<UserEntry>, total_shares: int,
    total_assets: int)
    requires
        total_shares >= 0,
        total_assets >= 0,
        sum_shares(s) <= total_shares,
    ensures
        0 <= sum_converted(s, total_shares, total_assets) <= total_assets,
{
    lemma_sum_converted_le_converted_sum(s, total_shares, total_assets);
    lemma_sum_shares_nonneg(s);
    lemma_assets_within_total(sum_shares(s), total_shares, total_assets);
}

/// Summing per-balance conversions loses only rounding against converting
/// the summed balance.
proof fn lemma_sum_converted_le_converted_sum(s: Seq<UserEntry>, total_shares: int,
    total_assets: int)
    requires
        total_shares >= 0,
        total_assets >= 0,
    ensures
        0 <= sum_converted(s, total_shares, total_assets) <= assets_for_shares(
            sum_shares(s),
            total_shares,
            total_assets,
        ),
    decreases s.len(),
{
    if s.len() == 0 {
    } else {
        let dl = s.drop_last();
        let b = s.last().shares as int;
        lemma_sum_converted_le_converted_sum(dl, total_shares, total_assets);
        lemma_sum_shares_nonneg(dl);
        if total_shares > 0 {
            lemma_mul_nonnegative(b, total_assets);
            lemma_div_pos_is_pos(b * total_assets, total_shares);
            lemma_mul_nonnegative(sum_shares(dl), total_assets);
            lemma_div_subadditive(sum_shares(dl) * total_assets, b * total_assets, total_shares);
            assert(sum_shares(dl) * total_assets + b * total_assets == (sum_shares(dl) + b)
                * total_assets) by {
                lemma_mul_is_distributive_add_other_way(total_assets, sum_shares(dl), b);
            }
        }
    }
}

/// Monotonic share price under deposits: minting at the current ratio,
/// rounded against the depositor, never lowers the value of one share.
pub proof fn lemma_share_price_monotonic_deposit(total_shares: int, total_assets: int,
    amount: int)
    requires
        total_shares >= 0,
        total_assets >= 0,
        amount >= 0,
    ensures
        assets_for_shares(
            1,
            total_shares + shares_for_assets(amount, total_shares, total_assets),
            total_assets + amount,
        ) >= assets_for_shares(1, total_shares, total_assets),
{
    let ts = total_shares;
    let ta = total_assets;
    let a = amount;
    let s = shares_for_assets(a, ts, ta);
    lemma_mul_basics(ta);
    lemma_mul_basics(ta + a);
    if ts == 0 || ta == 0 {
        // the old price is 0 (no shares) or the old ratio is 0 assets per
        // share: any non-negative new price is at least it
        if ts + s > 0 {
            lemma_mul_nonnegative(1, ta + a);
            lemma_div_pos_is_pos(1 * (ta + a), ts + s);
        }
        if ts > 0 && ta == 0 {
            lemma_mul_nonnegative(1, ta);
            lemma_div_pos_is_pos(1 * ta, ts);
            assert(ta / ts == 0) by {
                lemma_div_is_ordered(ta, 0, ts);
            }
        }
    } else {
        // s <= a * ts / ta exactly, so ta * s <= a * ts, hence
        // (ta + a) * ts >= ta * (ts + s) and the rational price rose
        lemma_fundamental_div_mod(a * ts, ta);
        lemma_remainder_lower(a * ts, ta);
        assert(ta * s <= a * ts);
        assert((ta + a) * ts >= ta * (ts + s)) by (nonlinear_arith)
            requires
                ta * s <= a * ts,
        ;
        lemma_mul_nonnegative(a, ts);
        lemma_div_pos_is_pos(a * ts, ta);
        lemma_div_cross_ordered(ta + a, ts + s, ta, ts);
    }
}

/// Monotonic share price under withdrawals: burning shares against a payout
/// priced at the current ratio, rounded against the withdrawer, never
/// lowers the value of one share for those who stay.
pub proof fn lemma_share_price_monotonic_withdraw(total_shares: int, total_assets: int,
    shares: int)
    requires
        total_assets >= 0,
        0 < shares < total_shares,
    ensures
        assets_for_shares(
            1,
            total_shares - shares,
            total_assets - assets_for_shares(shares, total_shares, total_assets),
        ) >= assets_for_shares(1, total_shares, total_assets),
{
    let ts = total_shares;
    let ta = total_assets;
    let s = shares;
    let v = assets_for_shares(s, ts, ta);
    lemma_mul_basics(ta);
    lemma_mul_basics(ta - v);
    lemma_assets_within_total(s, ts, ta);
    // v == floor(s * ta / ts), so ts * v <= s * ta, hence
    // (ta - v) * ts >= ta * (ts - s) and the rational price rose
    lemma_fundamental_div_mod(s * ta, ts);
    lemma_remainder_lower(s * ta, ts);
    assert(ts * v <= s * ta);
    assert((ta - v) * ts >= ta * (ts - s)) by (nonlinear_arith)
        requires
            ts * v <= s * ta,
    ;
    lemma_div_cross_ordered(ta - v, ts - s, ta, ts);
}

/// No profit, no fee: a withdrawal whose value does not exceed the caller's
/// cost basis pays a performance fee of exactly zero.
pub proof fn lemma_no_profit_no_fee(value: int, cost_basis: int, fee_bps: int)
    requires
        value <= cost_basis,
    ensures
        performance_fee(value, cost_basis, fee_bps) == 0,
{
}

/// Round trip. A first deposit of `a` into an empty vault mints exactly `a`
/// shares at the bootstrap 1:1 ratio; withdrawing them immediately values
/// them at exactly `a`, and with the cost basis equal to that value the
/// performance fee is zero — the depositor gets exactly `a` back.
pub proof fn lemma_first_deposit_round_trip(a: int, fee_bps: int)
    requires
        a > 0,
    ensures
        shares_for_assets(a, 0, 0) == a,
        assets_for_shares(a, a, a) == a,
        performance_fee(a, a, fee_bps) == 0,
        assets_for_shares(a, a, a) - performance_fee(a, a, fee_bps) == a,
{
    lemma_mul_is_commutative(a, a);
    lemma_div_multiples_vanish(a, a);
}

} // verus!
