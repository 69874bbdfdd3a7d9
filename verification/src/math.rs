//! Share-conversion arithmetic.
//!
//! All quantities are unsigned integers. Every multiply-then-divide is
//! carried out in `u128`, and the vault-wide counters are kept at or below
//! [`MAX_TOTAL`] so that no intermediate product can overflow that width.
//! Division truncates toward zero, which always rounds in favour of the pool.

use vstd::prelude::*;
use vstd::arithmetic::div_mod::{
    lemma_div_is_ordered, lemma_div_multiples_vanish, lemma_fundamental_div_mod,
    lemma_div_pos_is_pos, lemma_div_denominator, lemma_remainder_lower,
    lemma_remainder_upper, lemma_div_nonincreasing,
};
use vstd::arithmetic::mul::{
    lemma_mul_inequality, lemma_mul_is_commutative, lemma_mul_nonnegative,
    lemma_mul_is_distributive_add, lemma_mul_is_distributive_add_other_way,
    lemma_mul_inequality_converse, lemma_mul_upper_bound,
};

verus! {

/// Basis-point denominator: 10,000 basis points = 100%.
pub const BPS_DENOM: u64 = 10_000;

/// Seconds per 365-day year, for the time-prorated management fee.
pub const SECONDS_PER_YEAR: u64 = 31_536_000;

/// Upper bound kept on the vault-wide counters (`totalAssets`, `totalShares`).
/// Two factors at most this large multiply without overflowing `u128`.
pub const MAX_TOTAL: u128 = 0xffff_ffff_ffff_ffff;

/// Shares minted for `assets` at the ratio `total_shares : total_assets`.
///
/// An empty vault (no shares, or shares with no backing assets) bootstraps
/// at a 1:1 ratio; otherwise `floor(assets * total_shares / total_assets)`.
pub open spec fn shares_for_assets(assets: int, total_shares: int, total_assets: int) -> int {
    if total_shares == 0 {
        assets
    } else if total_assets == 0 {
        assets
    } else {
        assets * total_shares / total_assets
    }
}

/// Assets paid for `shares` at the ratio `total_assets : total_shares`:
/// `floor(shares * total_assets / total_shares)`, and 0 while no shares exist.
pub open spec fn assets_for_shares(shares: int, total_shares: int, total_assets: int) -> int {
    if total_shares == 0 {
        0
    } else {
        shares * total_assets / total_shares
    }
}

/// `bps` basis points of `amount`, rounded down.
pub open spec fn bps_of(amount: int, bps: int) -> int {
    amount * bps / (BPS_DENOM as int)
}

/// Performance fee on a withdrawal worth `value` against a stored cost
/// basis: charged only on the profit above the basis, zero otherwise.
pub open spec fn performance_fee(value: int, cost_basis: int, fee_bps: int) -> int {
    if value <= cost_basis {
        0
    } else {
        bps_of(value - cost_basis, fee_bps)
    }
}

/// Management-fee shares accrued over `elapsed` seconds at an annual rate of
/// `fee_bps` basis points of `total_shares`.
pub open spec fn management_fee_shares(total_shares: int, fee_bps: int, elapsed: int) -> int {
    total_shares * fee_bps * elapsed / ((SECONDS_PER_YEAR * BPS_DENOM) as int)
}

/// Of a deposit `amount`, the part kept in the instant pool: the pool's
/// deficit against `target_bps` of the post-deposit `total_assets`, capped at
/// the deposit itself.
pub open spec fn pool_topup(pool: int, total_assets: int, amount: int, target_bps: int) -> int {
    let target = bps_of(total_assets, target_bps);
    if pool >= target {
        0
    } else if target - pool >= amount {
        amount
    } else {
        target - pool
    }
}

/// `floor(a * b / d)` for factors bounded by [`MAX_TOTAL`]: the product is
/// proven to fit in `u128` before the divide.
pub fn mul_div(a: u128, b: u128, d: u128) -> (r: u128)
    requires
        d > 0,
        a <= MAX_TOTAL,
        b <= MAX_TOTAL,
    ensures
        r == a as int * b as int / d as int,
{
    proof {
        lemma_mul_upper_bound(a as int, MAX_TOTAL as int, b as int, MAX_TOTAL as int);
    }
    let wide: u128 = a * b;
    proof {
        lemma_div_pos_is_pos(wide as int, d as int);
        lemma_div_nonincreasing(wide as int, d as int);
    }
    wide / d
}

/// Quotients are ordered as the exact rationals they round down from:
/// if `a / b >= c / d` holds of the rationals (that is, `a * d >= c * b`),
/// it holds of the floors as well.
pub proof fn lemma_div_cross_ordered(a: int, b: int, c: int, d: int)
    requires
        b > 0,
        d > 0,
        a >= 0,
        c >= 0,
        a * d >= c * b,
    ensures
        a / b >= c / d,
{
    let q = c / d;
    lemma_div_pos_is_pos(c, d);
    lemma_fundamental_div_mod(c, d);
    lemma_remainder_lower(c, d);
    // c == d * q + (c % d) with a non-negative remainder, so c * b >= d * q * b
    assert(c * b >= (d * q) * b) by {
        lemma_mul_nonnegative(c % d, b);
        lemma_mul_is_distributive_add_other_way(b, d * q, c % d);
    }
    // a * d >= (q * b) * d, and d > 0, so a >= q * b
    assert(a * d >= (q * b) * d) by {
        assert((d * q) * b == (q * b) * d) by (nonlinear_arith);
    }
    lemma_mul_inequality_converse(q * b, a, d);
    // a >= q * b gives a / b >= (q * b) / b == q
    lemma_div_is_ordered(q * b, a, b);
    lemma_mul_is_commutative(q, b);
    lemma_div_multiples_vanish(q, b);
}

/// Flooring loses at most the remainder: the sum of two quotients is at most
/// the quotient of the sum.
pub proof fn lemma_div_subadditive(x: int, y: int, d: int)
    requires
        d > 0,
        x >= 0,
        y >= 0,
    ensures
        x / d + y / d <= (x + y) / d,
{
    let qx = x / d;
    let qy = y / d;
    lemma_fundamental_div_mod(x, d);
    lemma_fundamental_div_mod(y, d);
    lemma_remainder_lower(x, d);
    lemma_remainder_lower(y, d);
    assert(x + y >= d * (qx + qy)) by {
        assert(d * (qx + qy) == d * qx + d * qy) by (nonlinear_arith);
    }
    lemma_mul_is_commutative(d, qx + qy);
    lemma_div_is_ordered((qx + qy) * d, x + y, d);
    lemma_div_multiples_vanish(qx + qy, d);
}

/// Converting `shares` out of `total_shares` never pays out more than
/// `total_assets`: the pool can always cover a withdrawal priced at the
/// current ratio.
pub proof fn lemma_assets_within_total(shares: int, total_shares: int, total_assets: int)
    requires
        0 <= shares <= total_shares,
        total_assets >= 0,
    ensures
        0 <= assets_for_shares(shares, total_shares, total_assets) <= total_assets,
{
    if total_shares > 0 {
        lemma_mul_nonnegative(shares, total_assets);
        lemma_div_pos_is_pos(shares * total_assets, total_shares);
        lemma_mul_inequality(shares, total_shares, total_assets);
        lemma_div_is_ordered(shares * total_assets, total_shares * total_assets, total_shares);
        lemma_mul_is_commutative(total_shares, total_assets);
        lemma_div_multiples_vanish(total_assets, total_shares);
    }
}

/// A basis-point cut at no more than 100% never exceeds the amount it is
/// taken from.
pub proof fn lemma_bps_within_amount(amount: int, bps: int)
    requires
        amount >= 0,
        0 <= bps <= BPS_DENOM as int,
    ensures
        0 <= bps_of(amount, bps) <= amount,
{
    lemma_mul_nonnegative(amount, bps);
    lemma_div_pos_is_pos(amount * bps, BPS_DENOM as int);
    lemma_mul_inequality(bps, BPS_DENOM as int, amount);
    lemma_mul_is_commutative(amount, bps);
    lemma_mul_is_commutative(BPS_DENOM as int, amount);
    lemma_div_is_ordered(amount * bps, amount * (BPS_DENOM as int), BPS_DENOM as int);
    lemma_mul_is_commutative(amount, BPS_DENOM as int);
    lemma_div_multiples_vanish(amount, BPS_DENOM as int);
}

/// The performance fee never exceeds the withdrawal value it is charged on,
/// and is zero whenever the value does not exceed the cost basis.
pub proof fn lemma_performance_fee_bounds(value: int, cost_basis: int, fee_bps: int)
    requires
        value >= 0,
        cost_basis >= 0,
        0 <= fee_bps <= BPS_DENOM as int,
    ensures
        0 <= performance_fee(value, cost_basis, fee_bps) <= value,
        value <= cost_basis ==> performance_fee(value, cost_basis, fee_bps) == 0,
        performance_fee(value, cost_basis, fee_bps) <= value - cost_basis || value <= cost_basis,
{
    if value > cost_basis {
        lemma_bps_within_amount(value - cost_basis, fee_bps);
    }
}

/// The flat instant-withdrawal fee and the performance fee charged together
/// never exceed the value they are taken from, as long as their rates sum to
/// at most 100%.
pub proof fn lemma_combined_fee_within(value: int, cost_basis: int, flat_bps: int, perf_bps: int)
    requires
        value >= 0,
        cost_basis >= 0,
        flat_bps >= 0,
        perf_bps >= 0,
        flat_bps + perf_bps <= BPS_DENOM as int,
    ensures
        0 <= bps_of(value, flat_bps) + performance_fee(value, cost_basis, perf_bps) <= value,
{
    let d = BPS_DENOM as int;
    lemma_bps_within_amount(value, flat_bps);
    lemma_performance_fee_bounds(value, cost_basis, perf_bps);
    if value > cost_basis {
        let profit = value - cost_basis;
        assert(profit * perf_bps <= value * perf_bps) by {
            lemma_mul_inequality(profit, value, perf_bps);
        }
        lemma_mul_nonnegative(profit, perf_bps);
        lemma_div_is_ordered(profit * perf_bps, value * perf_bps, d);
        lemma_mul_nonnegative(value, flat_bps);
        lemma_mul_nonnegative(value, perf_bps);
        lemma_div_subadditive(value * flat_bps, value * perf_bps, d);
        assert(value * flat_bps + value * perf_bps == value * (flat_bps + perf_bps)) by {
            lemma_mul_is_distributive_add(value, flat_bps, perf_bps);
        }
        lemma_bps_within_amount(value, flat_bps + perf_bps);
    }
}

/// A product exceeds a bound exactly when one factor exceeds the bound
/// divided by the other: the overflow test a division can carry out.
pub proof fn lemma_mul_overflow_check(a: int, b: int, m: int)
    requires
        a > 0,
        b >= 0,
        m >= 0,
    ensures
        (a * b > m) <==> (b > m / a),
{
    lemma_fundamental_div_mod(m, a);
    lemma_remainder_lower(m, a);
    lemma_remainder_upper(m, a);
    lemma_div_pos_is_pos(m, a);
    if b > m / a {
        // b >= m / a + 1, so a * b >= a * (m / a) + a, which exceeds m
        assert(a * b >= a * (m / a + 1)) by {
            lemma_mul_inequality(m / a + 1, b, a);
            lemma_mul_is_commutative(m / a + 1, a);
            lemma_mul_is_commutative(b, a);
        }
        assert(a * (m / a + 1) == a * (m / a) + a) by {
            lemma_mul_is_distributive_add(a, m / a, 1);
        }
    } else {
        // b <= m / a, so a * b <= a * (m / a) <= m
        assert(a * b <= a * (m / a)) by {
            lemma_mul_inequality(b, m / a, a);
            lemma_mul_is_commutative(b, a);
            lemma_mul_is_commutative(m / a, a);
        }
    }
}

/// Dividing by two factors one after the other equals dividing by their
/// product: the management fee may interleave its two divisors.
pub proof fn lemma_two_step_div(x: int, c: int, d: int)
    requires
        x >= 0,
        c > 0,
        d > 0,
    ensures
        x / c / d == x / (c * d),
{
    lemma_div_denominator(x, c, d);
}

} // verus!
