//! Vault engine scenarios: full journeys through deposits, the three exit
//! paths, fees, rate limits and the guard discipline.

use vault_engine::errors::VaultError;
use vault_engine::guards::ENTERED;
use vault_engine::vault::VaultState;

const ADMIN: u64 = 1;
const TREASURY: u64 = 2;
const ALICE: u64 = 10;
const BOB: u64 = 11;

const DAY: u64 = 86_400;
const WEEK: u64 = 7 * 86_400;

/// One CSPR in base units (motes).
const CSPR: u128 = 1_000_000_000;

#[test]
fn test_full_user_journey_deposit_to_withdrawal() {
    let mut v = VaultState::init(ADMIN, TREASURY, 0);
    // deposit 10,000 CSPR: first depositor mints 1:1
    let shares = v.deposit(ALICE, 10_000 * CSPR, 0).unwrap();
    assert_eq!(shares, 10_000 * CSPR);
    // the deposit was split: 5% instant pool, the rest deployed
    assert!(v.strategy_assets > 0);
    // yield accrues in the strategies: 10%
    v.record_yield(ADMIN, 1_000 * CSPR).unwrap();
    assert_eq!(v.total_assets(), 11_000 * CSPR);
    // withdraw everything: profit of 1,000 CSPR pays a 10% performance fee
    let received = v.withdraw(ALICE, shares, 100).unwrap();
    assert_eq!(received, 11_000 * CSPR - 100 * CSPR);
    assert_eq!(v.get_fees_collected(), 100 * CSPR);
    assert_eq!(v.total_shares, 0);
}

#[test]
fn test_multiple_users_different_entry_points() {
    let mut v = VaultState::init(ADMIN, TREASURY, 0);
    // Alice enters at price 1.0
    let a_shares = v.deposit(ALICE, 1_000_000, 0).unwrap();
    assert_eq!(a_shares, 1_000_000);
    // yield accrues: price rises to 1.1
    v.record_yield(ADMIN, 100_000).unwrap();
    // Bob pays 1,100,000 for the same number of shares
    let b_shares = v.deposit(BOB, 1_100_000, 10).unwrap();
    assert_eq!(b_shares, 1_000_000);
    // both now hold equal claims; more yield accrues
    v.record_yield(ADMIN, 220_000).unwrap();
    // each share is now worth 1.21; both exit with proportional value
    let a_out = v.withdraw(ALICE, a_shares, 20).unwrap();
    let b_out = v.withdraw(BOB, b_shares, 30).unwrap();
    // Alice: value 1,210,000, profit 210,000, fee 21,000
    assert_eq!(a_out, 1_210_000 - 21_000);
    // Bob: value 1,210,000, profit 110,000, fee 11,000
    assert_eq!(b_out, 1_210_000 - 11_000);
}

#[test]
fn vault_integration_tests_test_instant_vs_timelocked_withdrawal() {
    let mut v = VaultState::init(ADMIN, TREASURY, 0);
    v.deposit(ALICE, 1_000_000, 0).unwrap();
    v.deposit(BOB, 1_000_000, 0).unwrap();
    // identical positions; the pool holds 100,000 (5% of 2,000,000)
    assert_eq!(v.get_instant_pool_balance(), 100_000);
    // Alice exits 50,000 shares instantly: pays the 0.5% instant fee
    let instant_amount = v.instant_withdraw(ALICE, 50_000, 10).unwrap();
    assert_eq!(instant_amount, 50_000 - 250);
    // Bob requests the same exit time-locked: no instant fee
    let request_id = v.request_withdrawal(BOB, 50_000, 10).unwrap();
    let timelocked_amount = v.complete_withdrawal(BOB, request_id, 10 + WEEK).unwrap();
    assert_eq!(timelocked_amount, 50_000);
    // waiting saved Bob the instant fee
    assert!(timelocked_amount > instant_amount);
}

#[test]
fn test_large_deposit_strategy_deployment() {
    let mut v = VaultState::init(ADMIN, TREASURY, 0);
    // 100,000 units: 5% stays in the pool, 95% is deployed
    v.deposit(ALICE, 100_000, 0).unwrap();
    assert_eq!(v.get_instant_pool_balance(), 5_000);
    assert_eq!(v.strategy_assets, 95_000);
    // another 50,000: the pool is topped up to 5% of the new total
    v.deposit(BOB, 50_000, 10).unwrap();
    assert_eq!(v.get_instant_pool_balance(), 7_500);
    assert_eq!(v.strategy_assets, 95_000 + 47_500);
}

#[test]
fn test_withdrawal_triggers_strategy_withdrawal() {
    let mut v = VaultState::init(ADMIN, TREASURY, 0);
    v.deposit(ALICE, 20_000, 0).unwrap();
    assert_eq!(v.get_instant_pool_balance(), 1_000);
    assert_eq!(v.strategy_assets, 19_000);
    // a 10,000-unit exit drains the pool and pulls the 9,000 shortfall
    // from the strategies
    let received = v.withdraw(ALICE, 10_000, 10).unwrap();
    assert_eq!(received, 10_000);
    assert_eq!(v.get_instant_pool_balance(), 0);
    assert_eq!(v.strategy_assets, 10_000);
}

#[test]
fn test_management_fees_over_time() {
    let mut v = VaultState::init(ADMIN, TREASURY, 0);
    v.deposit(ALICE, 100_000, 0).unwrap();
    // six months at 2% annual: 1,000 fee shares minted to the treasury
    let half_year = 15_768_000;
    let fee1 = v.collect_management_fees(ADMIN, half_year).unwrap();
    assert_eq!(fee1, 1_000);
    assert_eq!(v.total_shares, 101_000);
    assert_eq!(v.get_user_shares(TREASURY), 1_000);
    // another six months compounds on the grown supply
    let fee2 = v.collect_management_fees(ADMIN, 2 * half_year).unwrap();
    assert_eq!(fee2, 1_010);
    assert_eq!(v.get_user_shares(TREASURY), 2_010);
}

#[test]
fn test_performance_fee_cost_basis_tracking() {
    let mut v = VaultState::init(ADMIN, TREASURY, 0);
    // first deposit at price 1.0: cost basis 10,000,000
    v.deposit(ALICE, 10_000_000, 0).unwrap();
    // yield lifts the price to 1.2
    v.record_yield(ADMIN, 2_000_000).unwrap();
    // second deposit accumulates the basis: 22,000,000 in total
    let minted = v.deposit(ALICE, 12_000_000, 10).unwrap();
    assert_eq!(minted, 10_000_000);
    // more yield: price 1.5
    v.record_yield(ADMIN, 6_000_000).unwrap();
    // withdrawing everything: value 30,000,000, profit 8,000,000 over the
    // cumulative basis, fee 10% of the profit
    let received = v.withdraw(ALICE, 20_000_000, 20).unwrap();
    assert_eq!(received, 30_000_000 - 800_000);
    assert_eq!(v.get_fees_collected(), 800_000);
}

#[test]
fn test_rate_limiting_across_days() {
    let mut v = VaultState::init(ADMIN, TREASURY, 0);
    // the per-transaction cap is 10,000 CSPR, the daily cap 50,000 CSPR
    assert_eq!(
        v.deposit(ALICE, 10_001 * CSPR, 0),
        Err(VaultError::RateLimitExceeded)
    );
    for k in 0..5 {
        assert!(v.deposit(ALICE, 10_000 * CSPR, 100 + k).is_ok());
    }
    // the daily cap is used up
    assert_eq!(
        v.deposit(ALICE, 1_000 * CSPR, 200),
        Err(VaultError::RateLimitExceeded)
    );
    assert_eq!(v.max_deposit(ALICE, 200), 0);
    // 24 hours later the window resets
    assert!(v.deposit(ALICE, 10_000 * CSPR, 100 + DAY).is_ok());
    assert_eq!(v.max_deposit(ALICE, 100 + DAY), 40_000 * CSPR);
}

#[test]
fn test_instant_pool_replenishment() {
    let mut v = VaultState::init(ADMIN, TREASURY, 0);
    v.deposit(ALICE, 100_000, 0).unwrap();
    assert_eq!(v.get_instant_pool_balance(), 5_000);
    // a withdrawal depletes the pool to 1,000
    v.withdraw(ALICE, 4_000, 10).unwrap();
    assert_eq!(v.get_instant_pool_balance(), 1_000);
    // a new 10,000 deposit replenishes the pool toward 5% of the new
    // 106,000 total: 4,300 stays, 5,700 is deployed
    v.deposit(BOB, 10_000, 20).unwrap();
    assert_eq!(v.get_instant_pool_balance(), 5_300);
    assert_eq!(v.strategy_assets, 95_000 + 5_700);
}

#[test]
fn test_emergency_pause() {
    let mut v = VaultState::init(ADMIN, TREASURY, 0);
    v.deposit(ALICE, 100_000, 0).unwrap();
    assert_eq!(v.pause(ALICE, 10), Err(VaultError::Unauthorized));
    v.pause(ADMIN, 10).unwrap();
    assert!(v.is_paused());
    // deposits and the instant fast path are blocked
    assert_eq!(v.deposit(BOB, 50_000, 20), Err(VaultError::ContractPaused));
    assert_eq!(
        v.instant_withdraw(ALICE, 1_000, 20),
        Err(VaultError::ContractPaused)
    );
    // regular and time-locked exits stay open: a pause cannot trap funds
    assert!(v.withdraw(ALICE, 1_000, 20).is_ok());
    let id = v.request_withdrawal(ALICE, 2_000, 20).unwrap();
    assert!(v.complete_withdrawal(ALICE, id, 20 + WEEK).is_ok());
    v.unpause(ADMIN, 30 + WEEK).unwrap();
    assert!(v.deposit(BOB, 50_000, 40 + WEEK).is_ok());
}

#[test]
fn test_rescue_stuck_funds() {
    let mut v = VaultState::init(ADMIN, TREASURY, 0);
    v.deposit(ALICE, 100_000, 0).unwrap();
    let token: u64 = 99;
    assert_eq!(
        v.rescue_funds(ALICE, token, 1_000, BOB, 10),
        Err(VaultError::Unauthorized)
    );
    // the admin records the rescue; the vault's own books are untouched
    v.rescue_funds(ADMIN, token, 1_000, BOB, 10).unwrap();
    assert_eq!(v.total_assets(), 100_000);
    assert_eq!(v.total_shares, 100_000);
}

#[test]
fn test_multiple_withdrawal_requests() {
    let mut v = VaultState::init(ADMIN, TREASURY, 0);
    v.deposit(ALICE, 10_000_000, 0).unwrap();
    let req1 = v.request_withdrawal(ALICE, 3_000_000, 10).unwrap();
    let req2 = v.request_withdrawal(ALICE, 2_000_000, 20).unwrap();
    assert_ne!(req1, req2);
    // the locked shares left the spendable balance at once
    assert_eq!(v.get_user_shares(ALICE), 5_000_000);
    // but stay counted in the supply until completion
    assert_eq!(v.total_shares, 10_000_000);
    assert!(v.complete_withdrawal(ALICE, req1, 10 + WEEK).is_ok());
    assert!(v.complete_withdrawal(ALICE, req2, 20 + WEEK).is_ok());
    assert_eq!(v.total_shares, 5_000_000);
    // completing the same request again fails with no state change
    assert_eq!(
        v.complete_withdrawal(ALICE, req1, 30 + WEEK),
        Err(VaultError::InvalidRequest)
    );
}

#[test]
fn test_yield_distribution_fairness() {
    let mut v = VaultState::init(ADMIN, TREASURY, 0);
    // Alice holds 60% of the pool, Bob 40%
    v.deposit(ALICE, 6_000_000, 0).unwrap();
    v.deposit(BOB, 4_000_000, 0).unwrap();
    // a 10% return accrues
    v.record_yield(ADMIN, 1_000_000).unwrap();
    // Alice exits with 60% of the yield, minus the fee on her profit
    let a_out = v.withdraw(ALICE, 6_000_000, 10).unwrap();
    assert_eq!(a_out, 6_600_000 - 60_000);
    // Bob exits with 40% of the yield, minus the fee on his profit
    let b_out = v.withdraw(BOB, 4_000_000, 20).unwrap();
    assert_eq!(b_out, 4_400_000 - 40_000);
}

#[test]
fn test_strategy_withdrawal_failure_handling() {
    let mut v = VaultState::init(ADMIN, TREASURY, 0);
    v.deposit(ALICE, 100_000, 0).unwrap();
    let id = v.request_withdrawal(ALICE, 100_000, 10).unwrap();
    // the strategies report a loss: the snapshotted payout cannot be
    // covered, and the completion aborts cleanly
    v.record_loss(ADMIN, 60_000).unwrap();
    assert_eq!(
        v.complete_withdrawal(ALICE, id, 10 + WEEK),
        Err(VaultError::InsufficientLiquidity)
    );
    // the request is still open, not half-settled
    assert!(!v.get_withdrawal_request(id).unwrap().completed);
    // once the value is recovered the completion goes through
    v.record_yield(ADMIN, 60_000).unwrap();
    assert_eq!(v.complete_withdrawal(ALICE, id, 20 + WEEK), Ok(100_000));
}

#[test]
fn test_fee_changes_dont_affect_pending_withdrawals() {
    let mut v = VaultState::init(ADMIN, TREASURY, 0);
    v.deposit(ALICE, 1_000_000, 0).unwrap();
    // the payout value is snapshotted at request time
    let id = v.request_withdrawal(ALICE, 500_000, 10).unwrap();
    let snapshot = v.get_withdrawal_request(id).unwrap().assets_value;
    assert_eq!(snapshot, 500_000);
    // parameter changes and price moves after the request do not re-price it
    v.set_withdrawal_timelock(ADMIN, 2 * WEEK).unwrap();
    v.set_instant_pool_target(ADMIN, 1_000).unwrap();
    v.record_yield(ADMIN, 500_000).unwrap();
    // the request still unlocks at its original time and pays the snapshot
    let received = v.complete_withdrawal(ALICE, id, 10 + WEEK).unwrap();
    assert_eq!(received, 500_000);
}

#[test]
fn test_large_amounts_no_overflow() {
    let mut v = VaultState::init(ADMIN, TREASURY, 0);
    v.update_deposit_limits(ADMIN, u128::MAX, u128::MAX).unwrap();
    // the largest supported deposit in one transaction
    let max_total: u128 = u64::MAX as u128;
    let shares = v.deposit(ALICE, max_total, 0).unwrap();
    assert_eq!(shares, max_total);
    // one unit more than the supported width is refused, not wrapped
    assert_eq!(
        v.deposit(BOB, 1_000, 10),
        Err(VaultError::ArithmeticOverflow)
    );
    // and the full amount comes back out exactly
    let received = v.withdraw(ALICE, shares, 20).unwrap();
    assert_eq!(received, max_total);
}

#[test]
fn test_dust_amounts_handling() {
    let mut v = VaultState::init(ADMIN, TREASURY, 0);
    // below the minimum-shares floor: rejected
    assert_eq!(
        v.deposit(ALICE, 999, 0),
        Err(VaultError::InsufficientBalance)
    );
    // exactly at the floor: accepted
    assert_eq!(v.deposit(ALICE, 1_000, 0), Ok(1_000));
}

#[test]
fn test_reentrancy_protection() {
    let mut v = VaultState::init(ADMIN, TREASURY, 0);
    v.deposit(ALICE, 100_000, 0).unwrap();
    // the host holds the latch across a collaborator callback; a second
    // entry into any guarded mutator must abort
    v.guard.status = ENTERED;
    assert_eq!(
        v.deposit(BOB, 10_000, 10),
        Err(VaultError::ReentrancyGuard)
    );
    assert_eq!(
        v.withdraw(ALICE, 1_000, 10),
        Err(VaultError::ReentrancyGuard)
    );
    assert_eq!(
        v.request_withdrawal(ALICE, 1_000, 10),
        Err(VaultError::ReentrancyGuard)
    );
    assert_eq!(
        v.instant_withdraw(ALICE, 1_000, 10),
        Err(VaultError::ReentrancyGuard)
    );
    assert_eq!(v.total_shares, 100_000);
    // once the latch is released, operations resume
    v.guard.exit();
    assert!(v.withdraw(ALICE, 1_000, 20).is_ok());
}

#[test]
fn test_withdrawal_timelock_edge_cases() {
    let mut v = VaultState::init(ADMIN, TREASURY, 0);
    v.deposit(ALICE, 1_000_000, 0).unwrap();
    let t: u64 = 100;
    let id = v.request_withdrawal(ALICE, 100_000, t).unwrap();
    assert_eq!(v.get_withdrawal_request(id).unwrap().unlock_time, t + WEEK);
    // one second early: refused
    assert_eq!(
        v.complete_withdrawal(ALICE, id, t + WEEK - 1),
        Err(VaultError::TimelockNotExpired)
    );
    // exactly at the unlock time: accepted
    assert!(v.complete_withdrawal(ALICE, id, t + WEEK).is_ok());
    // a later request completes fine well past its unlock time
    let id2 = v.request_withdrawal(ALICE, 100_000, t).unwrap();
    assert!(v.complete_withdrawal(ALICE, id2, t + WEEK + 3_600).is_ok());
    // completing the same request twice: refused
    assert_eq!(
        v.complete_withdrawal(ALICE, id2, t + WEEK + 7_200),
        Err(VaultError::InvalidRequest)
    );
}

#[test]
fn test_treasury_fee_accumulation() {
    let mut v = VaultState::init(ADMIN, TREASURY, 0);
    v.deposit(ALICE, 1_000_000, 0).unwrap();
    // management fees arrive as freshly minted shares
    let fee_shares = v.collect_management_fees(ADMIN, 15_768_000).unwrap();
    assert_eq!(fee_shares, 10_000);
    assert_eq!(v.get_user_shares(TREASURY), 10_000);
    // instant-withdrawal fees arrive in the collected-fees bucket
    v.instant_withdraw(ALICE, 10_000, 15_768_000).unwrap();
    assert!(v.get_fees_collected() > 0);
    // the treasury spends its shares like any other holder
    let out = v.withdraw(TREASURY, 10_000, 15_768_100);
    assert!(out.is_ok());
    assert_eq!(v.get_user_shares(TREASURY), 0);
}

#[test]
fn test_fee_collection_preserves_share_price() {
    let mut v = VaultState::init(ADMIN, TREASURY, 0);
    v.deposit(ALICE, 100_000, 0).unwrap();
    // one year at 2% annual mints 2,000 fee shares
    let fee = v.collect_management_fees(ADMIN, 31_536_000).unwrap();
    assert_eq!(fee, 2_000);
    // the fee is shares, not assets: the asset total is untouched
    assert_eq!(v.total_assets(), 100_000);
    assert_eq!(v.total_shares, 102_000);
    // the dilution shows up as a slightly lower per-share value...
    assert_eq!(v.get_user_assets(ALICE), 98_039);
    assert_eq!(v.get_user_assets(TREASURY), 1_960);
    // ...while all claims together still cover the same assets
    assert!(v.get_user_assets(ALICE) + v.get_user_assets(TREASURY) <= 100_000);
}

#[test]
fn test_full_vault_lifecycle() {
    let mut v = VaultState::init(ADMIN, TREASURY, 0);
    // bootstrap: the first deposit sets the 1:1 ratio
    let a_shares = v.deposit(ALICE, 1_000_000, 0).unwrap();
    assert_eq!(a_shares, 1_000_000);
    // growth: more depositors, yield, fee accrual
    let b_shares = v.deposit(BOB, 500_000, 10).unwrap();
    v.record_yield(ADMIN, 150_000).unwrap();
    v.collect_management_fees(ADMIN, 7_200).unwrap();
    let t_shares = v.get_user_shares(TREASURY);
    // maturity: a time-locked exit alongside regular activity
    let id = v.request_withdrawal(BOB, 100_000, 7_300).unwrap();
    v.complete_withdrawal(BOB, id, 7_300 + WEEK).unwrap();
    // wind-down: everyone exits completely
    assert!(v.withdraw(ALICE, a_shares, 7_400 + WEEK).is_ok());
    assert!(v.withdraw(BOB, b_shares - 100_000, 7_500 + WEEK).is_ok());
    if t_shares > 0 {
        assert!(v.withdraw(TREASURY, t_shares, 7_600 + WEEK).is_ok());
    }
    // all claims are gone; only rounding dust may remain in the pool
    assert_eq!(v.total_shares, 0);
    assert_eq!(v.users.len(), 0);
    assert!(v.total_assets() < 10);
    assert!(v.get_fees_collected() > 0);
}

#[test]
fn test_vault_to_liquid_staking_flow() {
    let mut v = VaultState::init(ADMIN, TREASURY, 0);
    // a deposit routes most of its value out to the staking collaborator
    v.deposit(ALICE, 100_000, 0).unwrap();
    assert_eq!(v.strategy_assets, 95_000);
    // staking rewards compound: the reported value grows
    v.record_yield(ADMIN, 5_000).unwrap();
    assert_eq!(v.total_assets(), 105_000);
    // a large exit unstakes: the shortfall beyond the pool is drawn from
    // the staked value
    let received = v.withdraw(ALICE, 100_000, 10).unwrap();
    assert_eq!(received, 105_000 - 500);
    assert_eq!(v.strategy_assets, 0);
}

#[test]
fn test_vault_unbonding_period() {
    let mut v = VaultState::init(ADMIN, TREASURY, 0);
    v.deposit(ALICE, 1_000_000, 0).unwrap();
    // a 14-day unbonding period is mirrored by a 14-day timelock
    v.set_withdrawal_timelock(ADMIN, 14 * DAY).unwrap();
    let t: u64 = 100;
    let id = v.request_withdrawal(ALICE, 500_000, t).unwrap();
    assert_eq!(
        v.get_withdrawal_request(id).unwrap().unlock_time,
        t + 14 * DAY
    );
    // seven days in, the exit is still bonded
    assert_eq!(
        v.complete_withdrawal(ALICE, id, t + WEEK),
        Err(VaultError::TimelockNotExpired)
    );
    // after the full unbonding period it completes
    assert_eq!(v.complete_withdrawal(ALICE, id, t + 14 * DAY), Ok(500_000));
}

#[test]
fn test_vault_to_strategy_router_flow() {
    let mut v = VaultState::init(ADMIN, TREASURY, 0);
    // deposits allocate to the router beyond the pool target
    v.deposit(ALICE, 200_000, 0).unwrap();
    assert_eq!(v.strategy_assets, 190_000);
    // the router reports harvested returns
    v.record_yield(ADMIN, 19_000).unwrap();
    // an exit beyond the pool pulls funds back through the router
    v.withdraw(ALICE, 150_000, 10).unwrap();
    assert_eq!(v.get_instant_pool_balance(), 0);
    assert!(v.strategy_assets < 190_000);
}

#[test]
fn test_multi_strategy_yield_aggregation() {
    let mut v = VaultState::init(ADMIN, TREASURY, 0);
    v.deposit(ALICE, 100_000, 0).unwrap();
    // three strategies report a year's yield: 4% + 4.5% + 2.4%
    v.record_yield(ADMIN, 4_000).unwrap();
    v.record_yield(ADMIN, 4_500).unwrap();
    v.record_yield(ADMIN, 2_400).unwrap();
    // the vault's total reflects all of them: 10.9% overall
    assert_eq!(v.total_assets(), 110_900);
}
