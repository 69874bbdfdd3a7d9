//! Unit tests: conversion formulas, fee formulas, error variants, the
//! bootstrap scenarios, and the round-trip law on concrete values.

use vault_engine::errors::VaultError;
use vault_engine::vault::VaultState;

const ADMIN: u64 = 1;
const TREASURY: u64 = 2;
const ALICE: u64 = 10;
const BOB: u64 = 11;

const WEEK: u64 = 7 * 86_400;

#[test]
fn test_first_deposit_bootstrap_price() {
    let mut v = VaultState::init(ADMIN, TREASURY, 0);
    // first depositor: 1,000 units mint 1,000 shares at price 1.0
    let shares = v.deposit(ALICE, 1_000, 0).unwrap();
    assert_eq!(shares, 1_000);
    assert_eq!(v.get_share_price(), 1_000_000_000);
}

#[test]
fn test_deposit_after_yield_mints_at_higher_price() {
    let mut v = VaultState::init(ADMIN, TREASURY, 0);
    v.deposit(ALICE, 1_000, 0).unwrap();
    // a simulated 100-unit yield injection lifts the price to 1.1
    v.record_yield(ADMIN, 100).unwrap();
    assert_eq!(v.get_share_price(), 1_100_000_000);
    // depositing 1,100 units now mints exactly 1,000 additional shares
    let shares = v.deposit(BOB, 1_100, 10).unwrap();
    assert_eq!(shares, 1_000);
    assert_eq!(v.total_shares, 2_000);
}

#[test]
fn test_timelocked_exit_scenario() {
    let mut v = VaultState::init(ADMIN, TREASURY, 0);
    v.deposit(ALICE, 1_000_000, 0).unwrap();
    v.record_yield(ADMIN, 100_000).unwrap();
    // request-withdraw 500,000 shares at price 1.1
    let id = v.request_withdrawal(ALICE, 500_000, 100).unwrap();
    let req = v.get_withdrawal_request(id).unwrap();
    assert_eq!(req.assets_value, 550_000);
    // completion before the unlock time fails
    assert_eq!(
        v.complete_withdrawal(ALICE, id, 100 + WEEK - 1),
        Err(VaultError::TimelockNotExpired)
    );
    // past the unlock time it pays the snapshot minus the performance fee
    // on the profit over the cost basis; the basis is not reduced, so the
    // whole 550,000 sits below the 1,000,000 basis: no fee
    assert_eq!(v.complete_withdrawal(ALICE, id, 100 + WEEK), Ok(550_000));
}

#[test]
fn test_round_trip_first_deposit() {
    let mut v = VaultState::init(ADMIN, TREASURY, 0);
    // depositing A into an empty vault and immediately withdrawing all
    // resulting shares returns exactly A: no fee, no elapsed time
    let a: u128 = 123_456_789;
    let shares = v.deposit(ALICE, a, 0).unwrap();
    assert_eq!(shares, a);
    let received = v.withdraw(ALICE, shares, 0).unwrap();
    assert_eq!(received, a);
    assert_eq!(v.total_shares, 0);
    assert_eq!(v.get_fees_collected(), 0);
}

#[test]
fn test_convert_round_trips_favour_the_pool() {
    let mut v = VaultState::init(ADMIN, TREASURY, 0);
    v.deposit(ALICE, 1_000_000, 0).unwrap();
    v.record_yield(ADMIN, 333_333).unwrap();
    // conversions truncate toward zero: converting back never gains
    let shares = v.convert_to_shares(777);
    assert_eq!(shares, 777 * 1_000_000 / 1_333_333);
    assert!(v.convert_to_assets(shares) <= 777);
}

#[test]
fn test_convert_to_assets_zero_supply() {
    let v = VaultState::init(ADMIN, TREASURY, 0);
    // with no shares outstanding a share has no value
    assert_eq!(v.convert_to_assets(1_000), 0);
    // and assets convert 1:1 at bootstrap
    assert_eq!(v.convert_to_shares(1_000), 1_000);
}

#[test]
fn test_zero_amount_deposit_rejected() {
    let mut v = VaultState::init(ADMIN, TREASURY, 0);
    assert_eq!(v.deposit(ALICE, 0, 0), Err(VaultError::ZeroAmount));
}

#[test]
fn test_zero_share_withdrawals_rejected() {
    let mut v = VaultState::init(ADMIN, TREASURY, 0);
    v.deposit(ALICE, 10_000, 0).unwrap();
    assert_eq!(v.withdraw(ALICE, 0, 1), Err(VaultError::InsufficientBalance));
    assert_eq!(
        v.request_withdrawal(ALICE, 0, 1),
        Err(VaultError::InsufficientBalance)
    );
    assert_eq!(
        v.instant_withdraw(ALICE, 0, 1),
        Err(VaultError::InsufficientBalance)
    );
}

#[test]
fn test_withdraw_more_than_balance_rejected() {
    let mut v = VaultState::init(ADMIN, TREASURY, 0);
    v.deposit(ALICE, 10_000, 0).unwrap();
    assert_eq!(
        v.withdraw(ALICE, 10_001, 1),
        Err(VaultError::InsufficientBalance)
    );
    assert_eq!(
        v.withdraw(BOB, 1, 1),
        Err(VaultError::InsufficientBalance)
    );
}

#[test]
fn test_instant_withdraw_limited_by_pool() {
    let mut v = VaultState::init(ADMIN, TREASURY, 0);
    v.deposit(ALICE, 100_000, 0).unwrap();
    // the pool holds 5%; an instant exit beyond it is refused rather than
    // touching the strategies
    assert_eq!(
        v.instant_withdraw(ALICE, 10_000, 1),
        Err(VaultError::InsufficientLiquidity)
    );
    // within the pool it pays value minus both fees
    assert_eq!(v.instant_withdraw(ALICE, 5_000, 1), Ok(5_000 - 25));
}

#[test]
fn test_unknown_withdrawal_request_rejected() {
    let mut v = VaultState::init(ADMIN, TREASURY, 0);
    v.deposit(ALICE, 10_000, 0).unwrap();
    assert_eq!(
        v.complete_withdrawal(ALICE, 7, 1),
        Err(VaultError::WithdrawalRequestNotFound)
    );
    assert!(v.get_withdrawal_request(7).is_none());
}

#[test]
fn test_completing_anothers_request_rejected() {
    let mut v = VaultState::init(ADMIN, TREASURY, 0);
    v.deposit(ALICE, 10_000, 0).unwrap();
    let id = v.request_withdrawal(ALICE, 5_000, 0).unwrap();
    assert_eq!(
        v.complete_withdrawal(BOB, id, WEEK),
        Err(VaultError::Unauthorized)
    );
    // the request is untouched and still completable by its owner
    assert_eq!(v.complete_withdrawal(ALICE, id, WEEK), Ok(5_000));
}

#[test]
fn test_management_fee_too_soon_rejected() {
    let mut v = VaultState::init(ADMIN, TREASURY, 0);
    v.deposit(ALICE, 100_000, 0).unwrap();
    // collections are rate-limited to once per hour
    assert_eq!(
        v.collect_management_fees(ADMIN, 3_599),
        Err(VaultError::RateLimitExceeded)
    );
    // and reserved to the keeper
    assert_eq!(
        v.collect_management_fees(ALICE, 7_200),
        Err(VaultError::Unauthorized)
    );
    assert!(v.collect_management_fees(ADMIN, 7_200).is_ok());
}

#[test]
fn test_management_fee_formula_exact() {
    let mut v = VaultState::init(ADMIN, TREASURY, 0);
    v.deposit(ALICE, 3_000_000, 0).unwrap();
    // feeShares = totalShares * bps * seconds / (secondsPerYear * 10,000):
    // 3,000,000 * 200 * 86,400 / (31,536,000 * 10,000) = 164
    let fee = v.collect_management_fees(ADMIN, 86_400).unwrap();
    assert_eq!(fee, 164);
}

#[test]
fn test_performance_fee_formula_exact() {
    let mut v = VaultState::init(ADMIN, TREASURY, 0);
    v.deposit(ALICE, 10_000, 0).unwrap();
    v.record_yield(ADMIN, 777).unwrap();
    // value 10,777, basis 10,000: fee = 777 * 1,000 / 10,000 = 77
    let received = v.withdraw(ALICE, 10_000, 10).unwrap();
    assert_eq!(received, 10_777 - 77);
    assert_eq!(v.get_fees_collected(), 77);
}

#[test]
fn test_no_profit_no_fee_on_loss() {
    let mut v = VaultState::init(ADMIN, TREASURY, 0);
    v.deposit(ALICE, 10_000, 0).unwrap();
    // the strategies report a loss: the exit value sits below the basis
    v.record_loss(ADMIN, 1_000).unwrap();
    let received = v.withdraw(ALICE, 10_000, 10).unwrap();
    // value 9,000 <= basis 10,000: the performance fee is exactly 0
    assert_eq!(received, 9_000);
    assert_eq!(v.get_fees_collected(), 0);
}

#[test]
fn test_record_loss_beyond_strategies_rejected() {
    let mut v = VaultState::init(ADMIN, TREASURY, 0);
    v.deposit(ALICE, 10_000, 0).unwrap();
    assert_eq!(v.strategy_assets, 9_500);
    assert_eq!(
        v.record_loss(ADMIN, 9_501),
        Err(VaultError::ArithmeticUnderflow)
    );
    assert_eq!(
        v.record_loss(ALICE, 1),
        Err(VaultError::Unauthorized)
    );
    assert_eq!(
        v.record_yield(ALICE, 1),
        Err(VaultError::Unauthorized)
    );
}

#[test]
fn test_admin_setters_guarded_and_bounded() {
    let mut v = VaultState::init(ADMIN, TREASURY, 0);
    assert_eq!(
        v.set_instant_pool_target(ALICE, 100),
        Err(VaultError::Unauthorized)
    );
    assert_eq!(
        v.set_instant_pool_target(ADMIN, 5_001),
        Err(VaultError::Unauthorized)
    );
    assert!(v.set_instant_pool_target(ADMIN, 5_000).is_ok());
    assert_eq!(
        v.set_withdrawal_timelock(ADMIN, 86_399),
        Err(VaultError::Unauthorized)
    );
    assert_eq!(
        v.set_withdrawal_timelock(ADMIN, 2_592_001),
        Err(VaultError::Unauthorized)
    );
    assert!(v.set_withdrawal_timelock(ADMIN, 86_400).is_ok());
    assert_eq!(
        v.update_deposit_limits(BOB, 1, 1),
        Err(VaultError::Unauthorized)
    );
    assert!(v.update_deposit_limits(ADMIN, 5_000, 20_000).is_ok());
    assert_eq!(
        v.deposit(ALICE, 5_001, 0),
        Err(VaultError::RateLimitExceeded)
    );
}

#[test]
fn test_pause_unpause_flags() {
    let mut v = VaultState::init(ADMIN, TREASURY, 0);
    assert_eq!(v.unpause(ADMIN, 0), Err(VaultError::NotPaused));
    assert!(v.pause(ADMIN, 0).is_ok());
    assert_eq!(v.pause(ADMIN, 1), Err(VaultError::Paused));
    assert!(v.unpause(ADMIN, 2).is_ok());
    assert!(!v.is_paused());
}

#[test]
fn test_locked_shares_excluded_from_spendable_balance() {
    let mut v = VaultState::init(ADMIN, TREASURY, 0);
    v.deposit(ALICE, 10_000, 0).unwrap();
    v.request_withdrawal(ALICE, 6_000, 0).unwrap();
    // the locked shares cannot be spent twice
    assert_eq!(
        v.withdraw(ALICE, 6_001, 1),
        Err(VaultError::InsufficientBalance)
    );
    assert_eq!(v.get_user_shares(ALICE), 4_000);
    assert_eq!(v.max_withdraw(ALICE), 4_000);
    // but the supply still counts them until completion
    assert_eq!(v.total_shares, 10_000);
}

#[test]
fn test_deposit_sweeps_management_fee_first() {
    let mut v = VaultState::init(ADMIN, TREASURY, 0);
    v.deposit(ALICE, 1_000_000, 0).unwrap();
    // a deposit an hour or more later sweeps the due management fee before
    // minting, so the new depositor is not diluted by prior periods:
    // 1,000,000 * 200 * 31,536,000 / (31,536,000 * 10,000) = 20,000
    let minted = v.deposit(BOB, 1_000_000, 31_536_000).unwrap();
    assert_eq!(v.get_user_shares(TREASURY), 20_000);
    // Bob's shares are priced against the swept supply of 1,020,000
    assert_eq!(minted, 1_020_000);
    assert_eq!(v.total_shares, 1_000_000 + 20_000 + 1_020_000);
}

#[test]
fn test_error_codes_stable() {
    assert_eq!(VaultError::InsufficientBalance.code(), 1);
    assert_eq!(VaultError::ZeroAmount.code(), 2);
    assert_eq!(VaultError::ArithmeticOverflow.code(), 4);
    assert_eq!(VaultError::Paused.code(), 6);
    assert_eq!(VaultError::Unauthorized.code(), 8);
    assert_eq!(VaultError::ReentrancyGuard.code(), 9);
    assert_eq!(VaultError::RateLimitExceeded.code(), 10);
    assert_eq!(VaultError::InsufficientLiquidity.code(), 11);
    assert_eq!(VaultError::WithdrawalRequestNotFound.code(), 12);
    assert_eq!(VaultError::TimelockNotExpired.code(), 13);
    assert_eq!(VaultError::InvalidRequest.code(), 16);
    assert_eq!(VaultError::ContractPaused.code(), 17);
}

#[test]
fn test_share_price_never_drops_across_traffic() {
    let mut v = VaultState::init(ADMIN, TREASURY, 0);
    v.deposit(ALICE, 1_000_000, 0).unwrap();
    let mut price = v.get_share_price();
    // deposits and withdrawals round in the pool's favour: the price of a
    // share never decreases across them
    v.deposit(BOB, 777_777, 10).unwrap();
    assert!(v.get_share_price() >= price);
    price = v.get_share_price();
    v.instant_withdraw(BOB, 10_000, 20).unwrap();
    assert!(v.get_share_price() >= price);
    price = v.get_share_price();
    v.withdraw(ALICE, 333_333, 30).unwrap();
    assert!(v.get_share_price() >= price);
    price = v.get_share_price();
    v.record_yield(ADMIN, 123_456).unwrap();
    assert!(v.get_share_price() >= price);
}

#[test]
fn test_performance_fee_quote_matches_withdrawal() {
    let mut v = VaultState::init(ADMIN, TREASURY, 0);
    v.deposit(ALICE, 10_000, 0).unwrap();
    v.record_yield(ADMIN, 5_000).unwrap();
    // no profit below the basis, 10% of the profit above it
    assert_eq!(v.calculate_performance_fee(ALICE, 10_000), 0);
    assert_eq!(v.calculate_performance_fee(ALICE, 12_000), 200);
    // a user without a deposit record has everything counted as profit
    assert_eq!(v.calculate_performance_fee(BOB, 12_000), 1_200);
    // the quote is what the withdrawal actually charges
    let quote = v.calculate_performance_fee(ALICE, 15_000);
    let received = v.withdraw(ALICE, 10_000, 10).unwrap();
    assert_eq!(received, 15_000 - quote);
}

#[test]
fn test_cost_basis_not_reduced_on_partial_withdrawal() {
    // characterizes a deliberate quirk: partial withdrawals leave the
    // stored cost basis untouched, so later withdrawals may be
    // under-charged against the true remaining principal
    let mut v = VaultState::init(ADMIN, TREASURY, 0);
    v.deposit(ALICE, 10_000, 0).unwrap();
    v.record_yield(ADMIN, 10_000).unwrap();
    // half the shares are worth the whole original principal: no "profit"
    // relative to the full stored basis, so no fee is charged
    assert_eq!(v.withdraw(ALICE, 5_000, 10), Ok(10_000));
    // the basis still reads 10,000, so the second half also leaves fee-free
    assert_eq!(v.withdraw(ALICE, 5_000, 20), Ok(10_000));
    assert_eq!(v.get_fees_collected(), 0);
}

#[test]
fn test_events_record_every_mutation() {
    let mut v = VaultState::init(ADMIN, TREASURY, 0);
    v.deposit(ALICE, 100_000, 0).unwrap();
    assert_eq!(v.events.len(), 1);
    let id = v.request_withdrawal(ALICE, 10_000, 10).unwrap();
    assert_eq!(v.events.len(), 2);
    v.complete_withdrawal(ALICE, id, 10 + WEEK).unwrap();
    assert_eq!(v.events.len(), 3);
    v.withdraw(ALICE, 10_000, 20 + WEEK).unwrap();
    assert_eq!(v.events.len(), 4);
    // a failed call leaves no record behind
    let _ = v.deposit(ALICE, 0, 20 + WEEK);
    assert_eq!(v.events.len(), 4);
}
