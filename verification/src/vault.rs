//! The vault accounting and withdrawal engine.
//!
//! A single state value owns the share ledger, the three-path withdrawal
//! state machine, the fee engines, the instant-pool replenishment policy and
//! the deposit rate limits. Every public operation takes the caller identity,
//! the attached amount where one applies, and the current timestamp as plain
//! values; it either applies its full effect or returns a coded error with
//! the state untouched.
//!
//! The re-entrancy latch is part of the state so that the host shell can hold
//! it across its own collaborator sub-calls; an operation entered while the
//! latch is held aborts with a re-entrancy error.

use vstd::prelude::*;
use crate::errors::VaultError;
use crate::events::VaultEvent;
use crate::guards::{Pausable, ReentrancyGuard};
use crate::math::{
    BPS_DENOM, SECONDS_PER_YEAR, MAX_TOTAL, shares_for_assets, assets_for_shares, bps_of,
    performance_fee, management_fee_shares, pool_topup, mul_div, lemma_assets_within_total,
    lemma_bps_within_amount, lemma_performance_fee_bounds, lemma_two_step_div,
    lemma_mul_overflow_check,
};
use crate::positions::{
    UserDeposit, UserEntry, DailyEntry, zero_deposit, user_index, has_position, shares_of,
    deposit_of, basis_of, users_unique, sum_shares, daily_index, has_daily, window_of,
    daily_amount_of, daily_unique, find_user, find_daily, lemma_user_index_props,
    lemma_user_index_unique, lemma_sum_shares_nonneg, lemma_sum_shares_push,
    lemma_sum_shares_update, lemma_sum_shares_remove, lemma_entry_le_sum,
    lemma_lookup_after_update, lemma_lookup_after_push, lemma_lookup_after_remove,
    lemma_unique_after_update, lemma_unique_after_push, lemma_unique_after_remove,
    lemma_daily_index_props, lemma_daily_after_update, lemma_daily_after_push,
    lemma_daily_unique_after_update, lemma_daily_unique_after_push,
};
use crate::requests::{
    WithdrawalRequest, locked_shares, lemma_locked_nonneg, lemma_locked_push,
    lemma_locked_update, lemma_request_le_locked,
};
use vstd::arithmetic::mul::lemma_mul_upper_bound;
use vstd::arithmetic::div_mod::{lemma_div_is_ordered, lemma_div_by_self};

verus! {

/// The vault: share ledger, withdrawal state machine, fee engines, pool
/// policy and guard discipline in one state value.
#[derive(Debug)]
pub struct VaultState {
    /// Emergency pause flag.
    pub pausable: Pausable,
    /// Single-slot re-entrancy latch.
    pub guard: ReentrancyGuard,
    /// Total vault shares issued.
    pub total_shares: u128,
    /// Base-asset liquidity held for zero-delay exits.
    pub instant_pool: u128,
    /// Base-asset value deployed to (and reported by) the external
    /// staking/strategy collaborators.
    pub strategy_assets: u128,
    /// Accumulated performance and instant-withdrawal fees (base-asset
    /// units, tracked outside `totalAssets`).
    pub fees_collected: u128,
    /// Per-user positions, keyed by caller identity.
    pub users: Vec<UserEntry>,
    /// Per-user rolling 24-hour deposit counters.
    pub daily: Vec<DailyEntry>,
    /// Time-locked withdrawal requests; a request's id is its index here.
    pub requests: Vec<WithdrawalRequest>,
    /// Performance fee in basis points, charged on profit above cost basis.
    pub performance_fee_bps: u16,
    /// Management fee annual rate in basis points.
    pub management_fee_bps: u16,
    /// Extra flat fee on instant withdrawals, in basis points.
    pub instant_withdrawal_fee_bps: u16,
    /// Target instant-pool size as basis points of total assets.
    pub instant_pool_target_bps: u16,
    /// Timelock between requesting and completing an exit, in seconds.
    pub withdrawal_timelock: u64,
    /// Maximum deposit per transaction.
    pub max_deposit_per_tx: u128,
    /// Maximum deposit per user per day.
    pub max_deposit_per_day: u128,
    /// Minimum shares a deposit must mint (dust-attack guard).
    pub min_shares: u128,
    /// Timestamp of the last management-fee collection.
    pub last_fee_collection: u64,
    /// Admin identity.
    pub admin: u64,
    /// Keeper identity (fee collection, collaborator reports).
    pub keeper: u64,
    /// Treasury identity, credited with management-fee shares.
    pub treasury: u64,
    /// Audit trail: one record per state-mutating call.
    pub events: Vec<VaultEvent>,
}

impl VaultState {
    /// Total assets under management: the instant pool plus the value the
    /// external collaborators hold. Derived, never cached.
    pub open spec fn total_assets_spec(self) -> int {
        self.instant_pool + self.strategy_assets
    }

    /// Well-formedness, preserved by every operation:
    /// - caller keys are unique in the position and daily-counter lists;
    /// - the vault-wide counters stay at or below [`MAX_TOTAL`], so every
    ///   multiply-then-divide fits the wide intermediate type;
    /// - conservation: spendable balances plus shares locked in uncompleted
    ///   requests add up to exactly `total_shares`;
    /// - fee rates are valid basis points, the two fees charged together on
    ///   an instant exit summing to at most 100%;
    /// - the timelock stays within its admissible one-to-thirty-day range.
    pub open spec fn wf(self) -> bool {
        &&& users_unique(self.users@)
        &&& daily_unique(self.daily@)
        &&& self.total_shares <= MAX_TOTAL
        &&& self.total_assets_spec() <= MAX_TOTAL
        &&& sum_shares(self.users@) + locked_shares(self.requests@) == self.total_shares
        &&& self.performance_fee_bps <= BPS_DENOM
        &&& self.management_fee_bps <= BPS_DENOM
        &&& self.performance_fee_bps + self.instant_withdrawal_fee_bps <= BPS_DENOM
        &&& self.instant_pool_target_bps <= BPS_DENOM
        &&& 86400 <= self.withdrawal_timelock <= 2592000
    }

    /// Two states with equal readings everywhere.
    pub open spec fn same_state(a: VaultState, b: VaultState) -> bool {
        &&& a.pausable == b.pausable
        &&& a.guard == b.guard
        &&& a.total_shares == b.total_shares
        &&& a.instant_pool == b.instant_pool
        &&& a.strategy_assets == b.strategy_assets
        &&& a.fees_collected == b.fees_collected
        &&& a.users@ == b.users@
        &&& a.daily@ == b.daily@
        &&& a.requests@ == b.requests@
        &&& a.events@ == b.events@
        &&& VaultState::same_params(a, b)
        &&& a.last_fee_collection == b.last_fee_collection
    }

    /// The accounting books agree: everything but the pause flag, the
    /// latch and the audit trail.
    pub open spec fn same_books(a: VaultState, b: VaultState) -> bool {
        &&& a.total_shares == b.total_shares
        &&& a.instant_pool == b.instant_pool
        &&& a.strategy_assets == b.strategy_assets
        &&& a.fees_collected == b.fees_collected
        &&& a.users@ == b.users@
        &&& a.daily@ == b.daily@
        &&& a.requests@ == b.requests@
        &&& VaultState::same_params(a, b)
        &&& a.last_fee_collection == b.last_fee_collection
    }

    /// The configuration parameters agree.
    pub open spec fn same_params(a: VaultState, b: VaultState) -> bool {
        &&& a.performance_fee_bps == b.performance_fee_bps
        &&& a.management_fee_bps == b.management_fee_bps
        &&& a.instant_withdrawal_fee_bps == b.instant_withdrawal_fee_bps
        &&& a.instant_pool_target_bps == b.instant_pool_target_bps
        &&& a.withdrawal_timelock == b.withdrawal_timelock
        &&& a.max_deposit_per_tx == b.max_deposit_per_tx
        &&& a.max_deposit_per_day == b.max_deposit_per_day
        &&& a.min_shares == b.min_shares
        &&& a.admin == b.admin
        &&& a.keeper == b.keeper
        &&& a.treasury == b.treasury
    }

    /// Whether an hour has passed since the last management-fee collection.
    pub open spec fn mgmt_due(self, now: u64) -> bool {
        now >= self.last_fee_collection + 3600
    }

    /// Seconds elapsed since the last management-fee collection.
    pub open spec fn mgmt_elapsed(self, now: u64) -> int {
        now - self.last_fee_collection
    }

    /// Management-fee shares owed for the elapsed period.
    pub open spec fn mgmt_fee_shares_of(self, now: u64) -> int {
        management_fee_shares(
            self.total_shares as int,
            self.management_fee_bps as int,
            self.mgmt_elapsed(now),
        )
    }

    /// Whether collecting the management fee would overflow the supported
    /// widths: the fee product past `u128`, or the share supply past
    /// [`MAX_TOTAL`].
    pub open spec fn mgmt_overflow(self, now: u64) -> bool {
        ||| self.total_shares * self.management_fee_bps * self.mgmt_elapsed(now) > u128::MAX
        ||| self.total_shares + self.mgmt_fee_shares_of(now) > MAX_TOTAL
    }

    /// Management-fee shares a deposit sweeps before minting: the amount
    /// owed if an hour has passed and it is positive, otherwise nothing.
    pub open spec fn sweep_fee(self, now: u64) -> int {
        if self.mgmt_due(now) && self.mgmt_fee_shares_of(now) > 0 {
            self.mgmt_fee_shares_of(now)
        } else {
            0
        }
    }

    /// Share supply after the deposit-time management-fee sweep.
    pub open spec fn sweep_total_shares(self, now: u64) -> int {
        self.total_shares + self.sweep_fee(now)
    }

    /// Position list after the deposit-time sweep: management-fee shares
    /// credited to the treasury, if any are owed.
    pub open spec fn sweep_users(self, now: u64) -> Seq<UserEntry> {
        if self.sweep_fee(now) > 0 {
            upsert_add_shares(self.users@, self.treasury, self.sweep_fee(now))
        } else {
            self.users@
        }
    }

    /// Audit trail after the deposit-time sweep.
    pub open spec fn sweep_events(self, now: u64) -> Seq<VaultEvent> {
        if self.sweep_fee(now) > 0 {
            self.events@.push(
                VaultEvent::ManagementFeesCollected {
                    shares: self.sweep_fee(now) as u128,
                    treasury: self.treasury,
                    timestamp: now,
                },
            )
        } else {
            self.events@
        }
    }

    /// Last-collection timestamp after the deposit-time sweep.
    pub open spec fn sweep_last_collection(self, now: u64) -> u64 {
        if self.sweep_fee(now) > 0 {
            now
        } else {
            self.last_fee_collection
        }
    }

    /// Whether the caller's 24-hour deposit window has elapsed (or never
    /// started).
    pub open spec fn daily_window_elapsed(self, user: u64, now: u64) -> bool {
        !has_daily(self.daily@, user) || now >= window_of(self.daily@, user) + 86400
    }

    /// Amount already counted against the caller's daily cap at `now`.
    pub open spec fn daily_used(self, user: u64, now: u64) -> int {
        if self.daily_window_elapsed(user, now) {
            0
        } else {
            daily_amount_of(self.daily@, user)
        }
    }
}

/// `s` with `add` shares credited to `user`: the entry updated in place, or
/// a fresh one (with a zero deposit record) appended.
pub open spec fn upsert_add_shares(s: Seq<UserEntry>, user: u64, add: int) -> Seq<UserEntry> {
    if user_index(s, user) >= 0 {
        let e = s[user_index(s, user)];
        s.update(
            user_index(s, user),
            UserEntry { user, shares: (e.shares + add) as u128, deposit: e.deposit },
        )
    } else {
        s.push(UserEntry { user, shares: add as u128, deposit: zero_deposit() })
    }
}

/// `s` after a deposit by `user`: `minted` shares credited, and the deposit
/// record's cumulative cost basis and total raised by `amount` at `now`.
pub open spec fn upsert_deposit(
    s: Seq<UserEntry>,
    user: u64,
    minted: int,
    amount: int,
    now: u64,
) -> Seq<UserEntry> {
    if user_index(s, user) >= 0 {
        let e = s[user_index(s, user)];
        s.update(
            user_index(s, user),
            UserEntry {
                user,
                shares: (e.shares + minted) as u128,
                deposit: UserDeposit {
                    cost_basis: (e.deposit.cost_basis + amount) as u128,
                    total_deposited: (e.deposit.total_deposited + amount) as u128,
                    last_deposit_time: now,
                },
            },
        )
    } else {
        s.push(
            UserEntry {
                user,
                shares: minted as u128,
                deposit: UserDeposit {
                    cost_basis: amount as u128,
                    total_deposited: amount as u128,
                    last_deposit_time: now,
                },
            },
        )
    }
}

/// `s` with `burn` shares burned from `user`'s balance; the entry (and with
/// it the deposit record) is removed when the balance reaches zero.
pub open spec fn burn_shares(s: Seq<UserEntry>, user: u64, burn: int) -> Seq<UserEntry> {
    let i = user_index(s, user);
    let e = s[i];
    if e.shares == burn {
        s.remove(i)
    } else {
        s.update(i, UserEntry { user, shares: (e.shares - burn) as u128, deposit: e.deposit })
    }
}

/// `s` with `locked` shares taken out of `user`'s spendable balance; the
/// entry stays even at zero, since the shares are locked, not burned.
pub open spec fn lock_user_shares(s: Seq<UserEntry>, user: u64, locked: int) -> Seq<UserEntry> {
    let i = user_index(s, user);
    let e = s[i];
    s.update(i, UserEntry { user, shares: (e.shares - locked) as u128, deposit: e.deposit })
}

/// `s` with `user`'s daily counter set to `amt` within the window starting
/// at `window`.
pub open spec fn upsert_daily(s: Seq<DailyEntry>, user: u64, window: u64, amt: int) -> Seq<
    DailyEntry,
> {
    let e = DailyEntry { user, window_start: window, amount: amt as u128 };
    if daily_index(s, user) >= 0 {
        s.update(daily_index(s, user), e)
    } else {
        s.push(e)
    }
}

/// Crediting shares keeps keys unique, raises the sum by exactly the credit,
/// and leaves every other user's reading untouched.
pub proof fn lemma_upsert_add_shares_props(s: Seq<UserEntry>, user: u64, add: int)
    requires
        users_unique(s),
        0 <= add <= u128::MAX,
        shares_of(s, user) + add <= u128::MAX,
    ensures
        users_unique(upsert_add_shares(s, user, add)),
        sum_shares(upsert_add_shares(s, user, add)) == sum_shares(s) + add,
        shares_of(upsert_add_shares(s, user, add), user) == shares_of(s, user) + add,
        deposit_of(upsert_add_shares(s, user, add), user) == deposit_of(s, user),
        forall|w: u64|
            w != user ==> shares_of(upsert_add_shares(s, user, add), w) == shares_of(s, w)
                && deposit_of(upsert_add_shares(s, user, add), w) == deposit_of(s, w),
{
    let t = upsert_add_shares(s, user, add);
    lemma_user_index_props(s, user);
    let i = user_index(s, user);
    if i >= 0 {
        let e = UserEntry { user, shares: (s[i].shares + add) as u128, deposit: s[i].deposit };
        lemma_unique_after_update(s, i, e);
        lemma_sum_shares_update(s, i, e);
        lemma_user_index_unique(t, user, i);
        assert forall|w: u64| w != user implies shares_of(t, w) == shares_of(s, w)
            && deposit_of(t, w) == deposit_of(s, w) by {
            lemma_lookup_after_update(s, i, e, w);
        }
    } else {
        let e = UserEntry { user, shares: add as u128, deposit: zero_deposit() };
        lemma_unique_after_push(s, e);
        lemma_sum_shares_push(s, e);
        lemma_user_index_unique(t, user, s.len() as int);
        assert forall|w: u64| w != user implies shares_of(t, w) == shares_of(s, w)
            && deposit_of(t, w) == deposit_of(s, w) by {
            lemma_lookup_after_push(s, e, w);
        }
    }
}

/// A deposit upsert keeps keys unique, raises the sum by the minted shares,
/// accumulates the caller's cost basis, and leaves every other user's
/// reading untouched.
pub proof fn lemma_upsert_deposit_props(
    s: Seq<UserEntry>,
    user: u64,
    minted: int,
    amount: int,
    now: u64,
)
    requires
        users_unique(s),
        0 <= minted <= u128::MAX,
        0 <= amount,
        shares_of(s, user) + minted <= u128::MAX,
        deposit_of(s, user).cost_basis + amount <= u128::MAX,
        deposit_of(s, user).total_deposited + amount <= u128::MAX,
    ensures
        users_unique(upsert_deposit(s, user, minted, amount, now)),
        sum_shares(upsert_deposit(s, user, minted, amount, now)) == sum_shares(s) + minted,
        shares_of(upsert_deposit(s, user, minted, amount, now), user) == shares_of(s, user)
            + minted,
        basis_of(upsert_deposit(s, user, minted, amount, now), user) == basis_of(s, user)
            + amount,
        deposit_of(upsert_deposit(s, user, minted, amount, now), user).last_deposit_time == now,
        forall|w: u64|
            w != user ==> shares_of(upsert_deposit(s, user, minted, amount, now), w)
                == shares_of(s, w) && deposit_of(upsert_deposit(s, user, minted, amount, now), w)
                == deposit_of(s, w),
{
    let t = upsert_deposit(s, user, minted, amount, now);
    lemma_user_index_props(s, user);
    let i = user_index(s, user);
    if i >= 0 {
        let e0 = s[i];
        let e = UserEntry {
            user,
            shares: (e0.shares + minted) as u128,
            deposit: UserDeposit {
                cost_basis: (e0.deposit.cost_basis + amount) as u128,
                total_deposited: (e0.deposit.total_deposited + amount) as u128,
                last_deposit_time: now,
            },
        };
        lemma_unique_after_update(s, i, e);
        lemma_sum_shares_update(s, i, e);
        lemma_user_index_unique(t, user, i);
        assert forall|w: u64| w != user implies shares_of(t, w) == shares_of(s, w)
            && deposit_of(t, w) == deposit_of(s, w) by {
            lemma_lookup_after_update(s, i, e, w);
        }
    } else {
        let e = UserEntry {
            user,
            shares: minted as u128,
            deposit: UserDeposit {
                cost_basis: amount as u128,
                total_deposited: amount as u128,
                last_deposit_time: now,
            },
        };
        lemma_unique_after_push(s, e);
        lemma_sum_shares_push(s, e);
        lemma_user_index_unique(t, user, s.len() as int);
        assert forall|w: u64| w != user implies shares_of(t, w) == shares_of(s, w)
            && deposit_of(t, w) == deposit_of(s, w) by {
            lemma_lookup_after_push(s, e, w);
        }
    }
}

/// Burning shares keeps keys unique, lowers the sum by exactly the burn,
/// zeroes the caller's reading when the whole balance goes, and leaves every
/// other user's reading untouched.
pub proof fn lemma_burn_shares_props(s: Seq<UserEntry>, user: u64, burn: int)
    requires
        users_unique(s),
        has_position(s, user),
        0 < burn <= shares_of(s, user),
    ensures
        users_unique(burn_shares(s, user, burn)),
        sum_shares(burn_shares(s, user, burn)) == sum_shares(s) - burn,
        shares_of(burn_shares(s, user, burn), user) == shares_of(s, user) - burn,
        shares_of(s, user) == burn ==> !has_position(burn_shares(s, user, burn), user)
            && deposit_of(burn_shares(s, user, burn), user) == zero_deposit(),
        shares_of(s, user) > burn ==> deposit_of(burn_shares(s, user, burn), user) == deposit_of(
            s,
            user,
        ),
        forall|w: u64|
            w != user ==> shares_of(burn_shares(s, user, burn), w) == shares_of(s, w)
                && deposit_of(burn_shares(s, user, burn), w) == deposit_of(s, w),
{
    let t = burn_shares(s, user, burn);
    lemma_user_index_props(s, user);
    let i = user_index(s, user);
    let e0 = s[i];
    if e0.shares == burn {
        lemma_unique_after_remove(s, i);
        lemma_sum_shares_remove(s, i);
        assert forall|w: u64| w != user implies shares_of(t, w) == shares_of(s, w)
            && deposit_of(t, w) == deposit_of(s, w) by {
            lemma_lookup_after_remove(s, i, w);
        }
        // the removed user's key is gone from the list
        lemma_user_index_props(t, user);
        if user_index(t, user) >= 0 {
            let j = user_index(t, user);
            let sj = if j < i {
                j
            } else {
                j + 1
            };
            assert(t[j] == s[sj]);
            lemma_user_index_unique(s, user, sj);
            assert(false);
        }
    } else {
        let e = UserEntry { user, shares: (e0.shares - burn) as u128, deposit: e0.deposit };
        lemma_unique_after_update(s, i, e);
        lemma_sum_shares_update(s, i, e);
        lemma_user_index_unique(t, user, i);
        assert forall|w: u64| w != user implies shares_of(t, w) == shares_of(s, w)
            && deposit_of(t, w) == deposit_of(s, w) by {
            lemma_lookup_after_update(s, i, e, w);
        }
    }
}

/// Locking shares keeps keys unique, lowers the sum by exactly the lock,
/// keeps the entry and its deposit record, and leaves every other user's
/// reading untouched.
pub proof fn lemma_lock_shares_props(s: Seq<UserEntry>, user: u64, locked: int)
    requires
        users_unique(s),
        has_position(s, user),
        0 < locked <= shares_of(s, user),
    ensures
        users_unique(lock_user_shares(s, user, locked)),
        sum_shares(lock_user_shares(s, user, locked)) == sum_shares(s) - locked,
        shares_of(lock_user_shares(s, user, locked), user) == shares_of(s, user) - locked,
        deposit_of(lock_user_shares(s, user, locked), user) == deposit_of(s, user),
        has_position(lock_user_shares(s, user, locked), user),
        forall|w: u64|
            w != user ==> shares_of(lock_user_shares(s, user, locked), w) == shares_of(s, w)
                && deposit_of(lock_user_shares(s, user, locked), w) == deposit_of(s, w),
{
    let t = lock_user_shares(s, user, locked);
    lemma_user_index_props(s, user);
    let i = user_index(s, user);
    let e0 = s[i];
    let e = UserEntry { user, shares: (e0.shares - locked) as u128, deposit: e0.deposit };
    lemma_unique_after_update(s, i, e);
    lemma_sum_shares_update(s, i, e);
    lemma_user_index_unique(t, user, i);
    assert forall|w: u64| w != user implies shares_of(t, w) == shares_of(s, w) && deposit_of(
        t,
        w,
    ) == deposit_of(s, w) by {
        lemma_lookup_after_update(s, i, e, w);
    }
}

/// A daily-counter upsert keeps keys unique, sets the caller's counter, and
/// leaves every other user's counter untouched.
pub proof fn lemma_upsert_daily_props(s: Seq<DailyEntry>, user: u64, window: u64, amt: int)
    requires
        daily_unique(s),
        0 <= amt <= u128::MAX,
    ensures
        daily_unique(upsert_daily(s, user, window, amt)),
        has_daily(upsert_daily(s, user, window, amt), user),
        window_of(upsert_daily(s, user, window, amt), user) == window,
        daily_amount_of(upsert_daily(s, user, window, amt), user) == amt,
        forall|w: u64|
            w != user ==> window_of(upsert_daily(s, user, window, amt), w) == window_of(s, w)
                && daily_amount_of(upsert_daily(s, user, window, amt), w) == daily_amount_of(
                s,
                w,
            ) && has_daily(upsert_daily(s, user, window, amt), w) == has_daily(s, w),
{
    let e = DailyEntry { user, window_start: window, amount: amt as u128 };
    let t = upsert_daily(s, user, window, amt);
    lemma_daily_index_props(s, user);
    let i = daily_index(s, user);
    if i >= 0 {
        lemma_daily_unique_after_update(s, i, e);
        lemma_daily_index_unique(t, user, i);
        assert forall|w: u64| w != user implies window_of(t, w) == window_of(s, w)
            && daily_amount_of(t, w) == daily_amount_of(s, w) && has_daily(t, w) == has_daily(
            s,
            w,
        ) by {
            lemma_daily_after_update(s, i, e, w);
        }
    } else {
        lemma_daily_unique_after_push(s, e);
        lemma_daily_index_unique(t, user, s.len() as int);
        assert forall|w: u64| w != user implies window_of(t, w) == window_of(s, w)
            && daily_amount_of(t, w) == daily_amount_of(s, w) && has_daily(t, w) == has_daily(
            s,
            w,
        ) by {
            lemma_daily_after_push(s, e, w);
        }
    }
}

/// With unique keys, the counter holding `user`'s key is the one
/// `daily_index` finds.
pub proof fn lemma_daily_index_unique(s: Seq<DailyEntry>, user: u64, i: int)
    requires
        daily_unique(s),
        0 <= i < s.len(),
        s[i].user == user,
    ensures
        daily_index(s, user) == i,
    decreases s.len(),
{
    if s.last().user == user {
        assert(i == s.len() - 1);
    } else {
        assert(i < s.len() - 1);
        assert(daily_unique(s.drop_last())) by {
            assert forall|p: int, q: int|
                0 <= p < q < s.drop_last().len() implies s.drop_last()[p].user
                != s.drop_last()[q].user by {
                assert(s.drop_last()[p] == s[p]);
                assert(s.drop_last()[q] == s[q]);
            }
        }
        assert(s.drop_last()[i] == s[i]);
        lemma_daily_index_unique(s.drop_last(), user, i);
    }
}

impl VaultState {
    /// A fresh vault with the default parameters: 10% performance fee, 2%
    /// annual management fee, 0.5% instant-withdrawal fee, 7-day timelock,
    /// 5% instant-pool target, 10,000-unit per-transaction and 50,000-unit
    /// daily deposit caps (in base units of 10^9), and a 1000-unit dust
    /// floor. The admin initially also acts as keeper.
    pub fn init(admin: u64, treasury: u64, now: u64) -> (v: VaultState)
        ensures
            v.wf(),
            v.total_shares == 0,
            v.instant_pool == 0,
            v.strategy_assets == 0,
            v.fees_collected == 0,
            v.users@.len() == 0,
            v.daily@.len() == 0,
            v.requests@.len() == 0,
            v.events@.len() == 0,
            v.performance_fee_bps == 1000,
            v.management_fee_bps == 200,
            v.instant_withdrawal_fee_bps == 50,
            v.instant_pool_target_bps == 500,
            v.withdrawal_timelock == 604800,
            v.max_deposit_per_tx == 10_000_000_000_000u128,
            v.max_deposit_per_day == 50_000_000_000_000u128,
            v.min_shares == 1000,
            v.last_fee_collection == now,
            v.admin == admin,
            v.keeper == admin,
            v.treasury == treasury,
            !v.pausable.paused,
            !v.guard.entered(),
    {
        VaultState {
            pausable: Pausable::init(),
            guard: ReentrancyGuard::init(),
            total_shares: 0,
            instant_pool: 0,
            strategy_assets: 0,
            fees_collected: 0,
            users: Vec::new(),
            daily: Vec::new(),
            requests: Vec::new(),
            performance_fee_bps: 1000,
            management_fee_bps: 200,
            instant_withdrawal_fee_bps: 50,
            instant_pool_target_bps: 500,
            withdrawal_timelock: 604800,
            max_deposit_per_tx: 10_000_000_000_000,
            max_deposit_per_day: 50_000_000_000_000,
            min_shares: 1000,
            last_fee_collection: now,
            admin,
            keeper: admin,
            treasury,
            events: Vec::new(),
        }
    }

    /// Total assets under management.
    pub fn total_assets(&self) -> (r: u128)
        requires
            self.wf(),
        ensures
            r == self.total_assets_spec(),
    {
        self.instant_pool + self.strategy_assets
    }

    /// Shares minted for `assets` at the current ratio (1:1 while the vault
    /// is empty).
    pub fn convert_to_shares(&self, assets: u128) -> (r: u128)
        requires
            self.wf(),
            assets <= MAX_TOTAL,
        ensures
            r == shares_for_assets(assets as int, self.total_shares as int,
                self.total_assets_spec()),
    {
        if self.total_shares == 0 {
            return assets;
        }
        let total_assets = self.total_assets();
        if total_assets == 0 {
            return assets;
        }
        mul_div(assets, self.total_shares, total_assets)
    }

    /// Assets paid for `shares` at the current ratio (0 while no shares
    /// exist).
    pub fn convert_to_assets(&self, shares: u128) -> (r: u128)
        requires
            self.wf(),
            shares <= MAX_TOTAL,
        ensures
            r == assets_for_shares(shares as int, self.total_shares as int,
                self.total_assets_spec()),
    {
        if self.total_shares == 0 {
            return 0;
        }
        mul_div(shares, self.total_assets(), self.total_shares)
    }

    /// `user`'s spendable share balance.
    pub fn get_user_shares(&self, user: u64) -> (r: u128)
        ensures
            r == shares_of(self.users@, user),
    {
        match find_user(&self.users, user) {
            Some(i) => self.users[i].shares,
            None => 0,
        }
    }

    /// Base-asset value of `user`'s spendable balance at the current ratio.
    pub fn get_user_assets(&self, user: u64) -> (r: u128)
        requires
            self.wf(),
        ensures
            r == assets_for_shares(shares_of(self.users@, user), self.total_shares as int,
                self.total_assets_spec()),
    {
        let shares = self.get_user_shares(user);
        proof {
            self.lemma_user_shares_le_total(user);
        }
        self.convert_to_assets(shares)
    }

    /// Maximum assets `user` can withdraw right now: the value of the whole
    /// spendable balance.
    pub fn max_withdraw(&self, user: u64) -> (r: u128)
        requires
            self.wf(),
        ensures
            r == assets_for_shares(shares_of(self.users@, user), self.total_shares as int,
                self.total_assets_spec()),
    {
        self.get_user_assets(user)
    }

    /// How much `user` may still deposit today under the rolling 24-hour
    /// cap.
    pub fn max_deposit(&self, user: u64, now: u64) -> (r: u128)
        ensures
            r == if self.daily_used(user, now) >= self.max_deposit_per_day {
                0
            } else {
                self.max_deposit_per_day - self.daily_used(user, now)
            },
    {
        let used: u128 = match find_daily(&self.daily, user) {
            Some(i) => {
                let e = self.daily[i];
                if now >= e.window_start && now - e.window_start >= 86400 {
                    0
                } else {
                    e.amount
                }
            },
            None => 0,
        };
        if used >= self.max_deposit_per_day {
            0
        } else {
            self.max_deposit_per_day - used
        }
    }

    /// A stored withdrawal request, by id.
    pub fn get_withdrawal_request(&self, request_id: u64) -> (r: Option<WithdrawalRequest>)
        ensures
            request_id < self.requests@.len() ==> r == Some(self.requests@[request_id as int]),
            request_id >= self.requests@.len() ==> r is None,
    {
        if request_id < self.requests.len() as u64 {
            Some(self.requests[request_id as usize])
        } else {
            None
        }
    }

    /// Current instant-pool balance.
    pub fn get_instant_pool_balance(&self) -> (r: u128)
        ensures
            r == self.instant_pool,
    {
        self.instant_pool
    }

    /// Fees accumulated so far (base-asset units).
    pub fn get_fees_collected(&self) -> (r: u128)
        ensures
            r == self.fees_collected,
    {
        self.fees_collected
    }

    /// Price of 1.0 share (10^9 base share units) in base-asset units.
    pub fn get_share_price(&self) -> (r: u128)
        requires
            self.wf(),
        ensures
            r == assets_for_shares(1_000_000_000, self.total_shares as int,
                self.total_assets_spec()),
    {
        self.convert_to_assets(1_000_000_000)
    }

    /// Whether operations are paused.
    pub fn is_paused(&self) -> (r: bool)
        ensures
            r == self.pausable.paused,
    {
        self.pausable.is_paused()
    }

    /// A spendable balance never exceeds the share supply.
    pub proof fn lemma_user_shares_le_total(&self, user: u64)
        requires
            self.wf(),
        ensures
            0 <= shares_of(self.users@, user) <= self.total_shares,
    {
        lemma_user_index_props(self.users@, user);
        let i = user_index(self.users@, user);
        if i >= 0 {
            lemma_entry_le_sum(self.users@, i);
        }
        lemma_sum_shares_nonneg(self.users@);
        lemma_locked_nonneg(self.requests@);
    }

    /// Pause operations (admin only).
    pub fn pause(&mut self, caller: u64, now: u64) -> (r: Result<(), VaultError>)
        requires
            old(self).wf(),
        ensures
            final(self).wf(),
            caller != old(self).admin ==> r == Err::<(), VaultError>(VaultError::Unauthorized)
                && VaultState::same_state(*final(self), *old(self)),
            caller == old(self).admin && old(self).pausable.paused ==> r == Err::<(),
                VaultError,
            >(VaultError::Paused) && VaultState::same_state(*final(self), *old(self)),
            caller == old(self).admin && !old(self).pausable.paused ==> r == Ok::<(),
                VaultError,
            >(()) && final(self).pausable.paused && final(self).guard == old(self).guard
                && final(self).events@ == old(self).events@.push(
                VaultEvent::Paused { by: caller, timestamp: now },
            ) && VaultState::same_books(*final(self), *old(self)),
    {
        if caller != self.admin {
            return Err(VaultError::Unauthorized);
        }
        match self.pausable.pause() {
            Ok(_) => {
                self.events.push(VaultEvent::Paused { by: caller, timestamp: now });
                Ok(())
            },
            Err(e) => Err(e),
        }
    }

    /// Resume operations (admin only).
    pub fn unpause(&mut self, caller: u64, now: u64) -> (r: Result<(), VaultError>)
        requires
            old(self).wf(),
        ensures
            final(self).wf(),
            caller != old(self).admin ==> r == Err::<(), VaultError>(VaultError::Unauthorized)
                && VaultState::same_state(*final(self), *old(self)),
            caller == old(self).admin && !old(self).pausable.paused ==> r == Err::<(),
                VaultError,
            >(VaultError::NotPaused) && VaultState::same_state(*final(self), *old(self)),
            caller == old(self).admin && old(self).pausable.paused ==> r == Ok::<(), VaultError>(
                (),
            ) && !final(self).pausable.paused && final(self).guard == old(self).guard
                && final(self).events@ == old(self).events@.push(
                VaultEvent::Unpaused { by: caller, timestamp: now },
            ) && VaultState::same_books(*final(self), *old(self)),
    {
        if caller != self.admin {
            return Err(VaultError::Unauthorized);
        }
        match self.pausable.unpause() {
            Ok(_) => {
                self.events.push(VaultEvent::Unpaused { by: caller, timestamp: now });
                Ok(())
            },
            Err(e) => Err(e),
        }
    }

    /// Record yield reported by the external staking/strategy collaborators
    /// (keeper only): raises the strategy-held value.
    pub fn record_yield(&mut self, caller: u64, amount: u128) -> (r: Result<(), VaultError>)
        requires
            old(self).wf(),
        ensures
            final(self).wf(),
            caller != old(self).keeper ==> r == Err::<(), VaultError>(VaultError::Unauthorized)
                && VaultState::same_state(*final(self), *old(self)),
            caller == old(self).keeper && old(self).total_assets_spec() + amount > MAX_TOTAL
                ==> r == Err::<(), VaultError>(VaultError::ArithmeticOverflow)
                && VaultState::same_state(*final(self), *old(self)),
            caller == old(self).keeper && old(self).total_assets_spec() + amount <= MAX_TOTAL
                ==> r == Ok::<(), VaultError>(()) && *final(self) == (VaultState {
                strategy_assets: (old(self).strategy_assets + amount) as u128,
                ..*old(self)
            }),
    {
        if caller != self.keeper {
            return Err(VaultError::Unauthorized);
        }
        if amount > MAX_TOTAL - self.instant_pool || self.strategy_assets > MAX_TOTAL
            - self.instant_pool - amount {
            return Err(VaultError::ArithmeticOverflow);
        }
        self.strategy_assets = self.strategy_assets + amount;
        Ok(())
    }

    /// Record a loss reported by the external staking/strategy collaborators
    /// (keeper only): lowers the strategy-held value.
    pub fn record_loss(&mut self, caller: u64, amount: u128) -> (r: Result<(), VaultError>)
        requires
            old(self).wf(),
        ensures
            final(self).wf(),
            caller != old(self).keeper ==> r == Err::<(), VaultError>(VaultError::Unauthorized)
                && VaultState::same_state(*final(self), *old(self)),
            caller == old(self).keeper && amount > old(self).strategy_assets ==> r == Err::<
                (),
                VaultError,
            >(VaultError::ArithmeticUnderflow) && VaultState::same_state(*final(self), *old(self)),
            caller == old(self).keeper && amount <= old(self).strategy_assets ==> r == Ok::<
                (),
                VaultError,
            >(()) && *final(self) == (VaultState {
                strategy_assets: (old(self).strategy_assets - amount) as u128,
                ..*old(self)
            }),
    {
        if caller != self.keeper {
            return Err(VaultError::Unauthorized);
        }
        if amount > self.strategy_assets {
            return Err(VaultError::ArithmeticUnderflow);
        }
        self.strategy_assets = self.strategy_assets - amount;
        Ok(())
    }

    /// Update the instant-pool target ratio, at most 50% (admin only).
    pub fn set_instant_pool_target(&mut self, caller: u64, target_bps: u16) -> (r: Result<
        (),
        VaultError,
    >)
        requires
            old(self).wf(),
        ensures
            final(self).wf(),
            caller != old(self).admin || target_bps > 5000 ==> r == Err::<(), VaultError>(
                VaultError::Unauthorized,
            ) && VaultState::same_state(*final(self), *old(self)),
            caller == old(self).admin && target_bps <= 5000 ==> r == Ok::<(), VaultError>(())
                && *final(self) == (VaultState { instant_pool_target_bps: target_bps, ..*old(self) }),
    {
        if caller != self.admin {
            return Err(VaultError::Unauthorized);
        }
        if target_bps > 5000 {
            return Err(VaultError::Unauthorized);
        }
        self.instant_pool_target_bps = target_bps;
        Ok(())
    }

    /// Update the per-transaction and daily deposit caps (admin only).
    pub fn update_deposit_limits(&mut self, caller: u64, max_per_tx: u128, max_per_day: u128)
        -> (r: Result<(), VaultError>)
        requires
            old(self).wf(),
        ensures
            final(self).wf(),
            caller != old(self).admin ==> r == Err::<(), VaultError>(VaultError::Unauthorized)
                && VaultState::same_state(*final(self), *old(self)),
            caller == old(self).admin ==> r == Ok::<(), VaultError>(()) && *final(self)
                == (VaultState {
                max_deposit_per_tx: max_per_tx,
                max_deposit_per_day: max_per_day,
                ..*old(self)
            }),
    {
        if caller != self.admin {
            return Err(VaultError::Unauthorized);
        }
        self.max_deposit_per_tx = max_per_tx;
        self.max_deposit_per_day = max_per_day;
        Ok(())
    }

    /// Update the withdrawal timelock, between one and thirty days (admin
    /// only).
    pub fn set_withdrawal_timelock(&mut self, caller: u64, timelock: u64) -> (r: Result<
        (),
        VaultError,
    >)
        requires
            old(self).wf(),
        ensures
            final(self).wf(),
            caller != old(self).admin || timelock < 86400 || timelock > 2592000 ==> r == Err::<
                (),
                VaultError,
            >(VaultError::Unauthorized) && VaultState::same_state(*final(self), *old(self)),
            caller == old(self).admin && 86400 <= timelock <= 2592000 ==> r == Ok::<(),
                VaultError,
            >(()) && *final(self) == (VaultState { withdrawal_timelock: timelock, ..*old(self) }),
    {
        if caller != self.admin {
            return Err(VaultError::Unauthorized);
        }
        if timelock < 86400 || timelock > 2592000 {
            return Err(VaultError::Unauthorized);
        }
        self.withdrawal_timelock = timelock;
        Ok(())
    }

    /// Record the rescue of stuck outside funds (admin only). The actual
    /// token transfer is the host's; the engine's books are untouched.
    pub fn rescue_funds(&mut self, caller: u64, token: u64, amount: u128, recipient: u64,
        now: u64) -> (r: Result<(), VaultError>)
        requires
            old(self).wf(),
        ensures
            final(self).wf(),
            caller != old(self).admin ==> r == Err::<(), VaultError>(VaultError::Unauthorized)
                && VaultState::same_state(*final(self), *old(self)),
            caller == old(self).admin ==> r == Ok::<(), VaultError>(()) && final(self).events@
                == old(self).events@.push(
                VaultEvent::FundsRescued { token, amount, recipient, timestamp: now },
            ) && final(self).pausable == old(self).pausable && final(self).guard == old(
                self,
            ).guard && VaultState::same_books(*final(self), *old(self)),
    {
        if caller != self.admin {
            return Err(VaultError::Unauthorized);
        }
        self.events.push(VaultEvent::FundsRescued { token, amount, recipient, timestamp: now });
        Ok(())
    }
}

impl VaultState {
    /// Start of the daily window a deposit by `user` at `now` counts
    /// against: the stored window, or `now` when it has elapsed.
    pub open spec fn deposit_window(self, user: u64, now: u64) -> u64 {
        if self.daily_window_elapsed(user, now) {
            now
        } else {
            window_of(self.daily@, user)
        }
    }

    /// Shares a deposit of `amount` at `now` mints: priced after the
    /// management-fee sweep, against the pre-deposit assets.
    pub open spec fn deposit_minted(self, amount: u128, now: u64) -> int {
        shares_for_assets(amount as int, self.sweep_total_shares(now), self.total_assets_spec())
    }

    /// Of a deposit of `amount`, the part kept in the instant pool under the
    /// replenishment policy.
    pub open spec fn deposit_topup(self, amount: u128) -> int {
        pool_topup(
            self.instant_pool as int,
            self.total_assets_spec() + amount,
            amount as int,
            self.instant_pool_target_bps as int,
        )
    }

    /// The error a deposit of `amount` by `caller` at `now` fails with, if
    /// any, in the order the checks run:
    /// paused; re-entered; zero amount; per-transaction cap; daily cap;
    /// management-fee sweep overflow; asset-counter overflow; dust floor;
    /// share-counter overflow; cost-basis counter overflow.
    pub open spec fn deposit_err(self, caller: u64, amount: u128, now: u64) -> Option<
        VaultError,
    > {
        if self.pausable.paused {
            Some(VaultError::ContractPaused)
        } else if self.guard.entered() {
            Some(VaultError::ReentrancyGuard)
        } else if amount == 0 {
            Some(VaultError::ZeroAmount)
        } else if amount > self.max_deposit_per_tx {
            Some(VaultError::RateLimitExceeded)
        } else if self.daily_used(caller, now) + amount > self.max_deposit_per_day {
            Some(VaultError::RateLimitExceeded)
        } else if self.mgmt_due(now) && self.mgmt_fee_shares_of(now) > 0 && self.mgmt_overflow(
            now,
        ) {
            Some(VaultError::ArithmeticOverflow)
        } else if self.total_assets_spec() + amount > MAX_TOTAL {
            Some(VaultError::ArithmeticOverflow)
        } else if self.deposit_minted(amount, now) < self.min_shares {
            Some(VaultError::InsufficientBalance)
        } else if self.sweep_total_shares(now) + self.deposit_minted(amount, now) > MAX_TOTAL {
            Some(VaultError::ArithmeticOverflow)
        } else if deposit_of(self.users@, caller).cost_basis + amount > u128::MAX || deposit_of(
            self.users@,
            caller,
        ).total_deposited + amount > u128::MAX {
            Some(VaultError::ArithmeticOverflow)
        } else {
            None
        }
    }

    /// Management-fee shares owed at `now`, or the overflow that computing
    /// or minting them would hit. Pure: nothing is swept yet.
    fn compute_mgmt_fee(&self, now: u64) -> (r: Result<u128, VaultError>)
        requires
            self.wf(),
            now >= self.last_fee_collection,
        ensures
            match r {
                Ok(fee) => fee == self.mgmt_fee_shares_of(now) && !(self.mgmt_fee_shares_of(now)
                    > 0 && self.mgmt_overflow(now)),
                Err(e) => e == VaultError::ArithmeticOverflow && self.mgmt_fee_shares_of(now) > 0
                    && self.mgmt_overflow(now),
            },
    {
        let ts = self.total_shares;
        let bps = self.management_fee_bps as u128;
        let elapsed = (now - self.last_fee_collection) as u128;
        proof {
            lemma_mul_upper_bound(ts as int, MAX_TOTAL as int, bps as int, BPS_DENOM as int);
        }
        let p1: u128 = ts * bps;
        if p1 > 0 && elapsed > u128::MAX / p1 {
            proof {
                lemma_mul_overflow_check(p1 as int, elapsed as int, u128::MAX as int);
                // the fee on a product past u128::MAX is itself positive
                let d = (SECONDS_PER_YEAR * BPS_DENOM) as int;
                let product = ts as int * bps as int * elapsed as int;
                lemma_div_is_ordered(d, product, d);
                lemma_div_by_self(d);
                lemma_two_step_div(product, SECONDS_PER_YEAR as int, BPS_DENOM as int);
            }
            return Err(VaultError::ArithmeticOverflow);
        }
        proof {
            if p1 > 0 {
                lemma_mul_overflow_check(p1 as int, elapsed as int, u128::MAX as int);
            }
        }
        let p2: u128 = p1 * elapsed;
        let fee: u128 = p2 / (SECONDS_PER_YEAR as u128) / (BPS_DENOM as u128);
        proof {
            lemma_two_step_div(p2 as int, SECONDS_PER_YEAR as int, BPS_DENOM as int);
        }
        if fee > 0 && fee > MAX_TOTAL - ts {
            return Err(VaultError::ArithmeticOverflow);
        }
        Ok(fee)
    }

    /// Credit `fee` freshly minted shares to the treasury and stamp the
    /// collection time: the dilutive arm of the management fee. Touches no
    /// assets.
    fn mint_treasury(&mut self, fee: u128, now: u64)
        requires
            old(self).wf(),
            fee > 0,
            old(self).total_shares + fee <= MAX_TOTAL,
        ensures
            final(self).wf(),
            final(self).total_shares == old(self).total_shares + fee,
            final(self).users@ == upsert_add_shares(old(self).users@, old(self).treasury,
                fee as int),
            final(self).last_fee_collection == now,
            final(self).events@ == old(self).events@.push(
                VaultEvent::ManagementFeesCollected {
                    shares: fee,
                    treasury: old(self).treasury,
                    timestamp: now,
                },
            ),
            final(self).pausable == old(self).pausable,
            final(self).guard == old(self).guard,
            final(self).instant_pool == old(self).instant_pool,
            final(self).strategy_assets == old(self).strategy_assets,
            final(self).fees_collected == old(self).fees_collected,
            final(self).daily@ == old(self).daily@,
            final(self).requests@ == old(self).requests@,
            VaultState::same_params(*final(self), *old(self)),
            shares_of(final(self).users@, old(self).treasury) == shares_of(old(self).users@, old(
                self,
            ).treasury) + fee,
    {
        proof {
            self.lemma_user_shares_le_total(self.treasury);
            lemma_upsert_add_shares_props(self.users@, self.treasury, fee as int);
            lemma_locked_nonneg(self.requests@);
        }
        let t = self.treasury;
        let ghost users0 = self.users@;
        match find_user(&self.users, t) {
            Some(i) => {
                proof {
                    lemma_user_index_props(users0, t);
                }
                let e = self.users[i];
                self.users[i] = UserEntry { user: t, shares: e.shares + fee, deposit: e.deposit };
            },
            None => {
                self.users.push(
                    UserEntry {
                        user: t,
                        shares: fee,
                        deposit: UserDeposit {
                            cost_basis: 0,
                            total_deposited: 0,
                            last_deposit_time: 0,
                        },
                    },
                );
            },
        }
        proof {
            assert(self.users@ == upsert_add_shares(users0, t, fee as int));
        }
        self.total_shares = self.total_shares + fee;
        self.last_fee_collection = now;
        self.events.push(
            VaultEvent::ManagementFeesCollected { shares: fee, treasury: t, timestamp: now },
        );
    }

    /// Collect the accrued management fee (keeper only): mints time-prorated
    /// fee shares to the treasury, diluting all holders equally. Rate-limited
    /// to once per hour; collecting when nothing is owed succeeds with 0 and
    /// changes nothing.
    pub fn collect_management_fees(&mut self, caller: u64, now: u64) -> (r: Result<
        u128,
        VaultError,
    >)
        requires
            old(self).wf(),
        ensures
            final(self).wf(),
            caller != old(self).keeper ==> r == Err::<u128, VaultError>(VaultError::Unauthorized)
                && VaultState::same_state(*final(self), *old(self)),
            caller == old(self).keeper && !old(self).mgmt_due(now) ==> r == Err::<
                u128,
                VaultError,
            >(VaultError::RateLimitExceeded) && VaultState::same_state(*final(self), *old(self)),
            caller == old(self).keeper && old(self).mgmt_due(now) ==> match r {
                Ok(fee) => {
                    &&& fee == old(self).sweep_fee(now)
                    &&& final(self).total_shares == old(self).sweep_total_shares(now)
                    &&& final(self).users@ == old(self).sweep_users(now)
                    &&& final(self).events@ == old(self).sweep_events(now)
                    &&& final(self).last_fee_collection == old(self).sweep_last_collection(now)
                    &&& final(self).instant_pool == old(self).instant_pool
                    &&& final(self).strategy_assets == old(self).strategy_assets
                    &&& final(self).fees_collected == old(self).fees_collected
                    &&& final(self).daily@ == old(self).daily@
                    &&& final(self).requests@ == old(self).requests@
                    &&& final(self).pausable == old(self).pausable
                    &&& final(self).guard == old(self).guard
                    &&& VaultState::same_params(*final(self), *old(self))
                },
                Err(e) => e == VaultError::ArithmeticOverflow && old(self).mgmt_fee_shares_of(now)
                    > 0 && old(self).mgmt_overflow(now) && VaultState::same_state(*final(self),
                    *old(self)),
            },
    {
        if caller != self.keeper {
            return Err(VaultError::Unauthorized);
        }
        if !(now >= self.last_fee_collection && now - self.last_fee_collection >= 3600) {
            return Err(VaultError::RateLimitExceeded);
        }
        let fee = match self.compute_mgmt_fee(now) {
            Ok(f) => f,
            Err(e) => {
                return Err(e);
            },
        };
        if fee == 0 {
            return Ok(0);
        }
        self.mint_treasury(fee, now);
        Ok(fee)
    }

    /// Deposit `amount` base-asset units for `caller` at `now` and mint
    /// claim-shares at the current ratio.
    ///
    /// In order: the pause flag and re-entrancy latch are checked; the
    /// amount must be non-zero, within the per-transaction cap and within
    /// the caller's rolling 24-hour cap; any management fee due is swept
    /// (so the new depositor is not diluted by prior periods); shares are
    /// priced post-sweep and must reach the dust floor; the deposit is then
    /// split between the instant pool and strategy deployment under the
    /// replenishment policy, the caller's balance and cumulative cost basis
    /// grow, and a deposit record is appended. Any failure leaves the state
    /// exactly as it was. Returns the shares minted.
    #[verifier::rlimit(100)]
    pub fn deposit(&mut self, caller: u64, amount: u128, now: u64) -> (r: Result<
        u128,
        VaultError,
    >)
        requires
            old(self).wf(),
        ensures
            final(self).wf(),
            match old(self).deposit_err(caller, amount, now) {
                Some(e) => r == Err::<u128, VaultError>(e) && VaultState::same_state(*final(self),
                    *old(self)),
                None => {
                    &&& r == Ok::<u128, VaultError>(
                        old(self).deposit_minted(amount, now) as u128,
                    )
                    &&& final(self).total_shares == old(self).sweep_total_shares(now) + old(
                        self,
                    ).deposit_minted(amount, now)
                    &&& final(self).instant_pool == old(self).instant_pool + old(
                        self,
                    ).deposit_topup(amount)
                    &&& final(self).strategy_assets == old(self).strategy_assets + amount - old(
                        self,
                    ).deposit_topup(amount)
                    &&& final(self).total_assets_spec() == old(self).total_assets_spec() + amount
                    &&& final(self).users@ == upsert_deposit(old(self).sweep_users(now), caller,
                        old(self).deposit_minted(amount, now), amount as int, now)
                    &&& final(self).daily@ == upsert_daily(old(self).daily@, caller,
                        old(self).deposit_window(caller, now),
                        old(self).daily_used(caller, now) + amount)
                    &&& final(self).requests@ == old(self).requests@
                    &&& final(self).events@ == old(self).sweep_events(now).push(
                        VaultEvent::Deposit {
                            user: caller,
                            amount,
                            shares_minted: old(self).deposit_minted(amount, now) as u128,
                            timestamp: now,
                        },
                    )
                    &&& final(self).fees_collected == old(self).fees_collected
                    &&& final(self).last_fee_collection == old(self).sweep_last_collection(now)
                    &&& final(self).pausable == old(self).pausable
                    &&& final(self).guard == old(self).guard
                    &&& VaultState::same_params(*final(self), *old(self))
                },
            },
    {
        let ghost pre = *old(self);
        if self.pausable.is_paused() {
            return Err(VaultError::ContractPaused);
        }
        if self.guard.is_entered() {
            return Err(VaultError::ReentrancyGuard);
        }
        if amount == 0 {
            return Err(VaultError::ZeroAmount);
        }
        if amount > self.max_deposit_per_tx {
            return Err(VaultError::RateLimitExceeded);
        }

        // rolling 24-hour window
        let daily_found = find_daily(&self.daily, caller);
        let window: u64;
        let used: u128;
        match daily_found {
            Some(i) => {
                let e = self.daily[i];
                if now >= e.window_start && now - e.window_start >= 86400 {
                    window = now;
                    used = 0;
                } else {
                    window = e.window_start;
                    used = e.amount;
                }
            },
            None => {
                window = now;
                used = 0;
            },
        }
        proof {
            assert(window == pre.deposit_window(caller, now));
            assert(used as int == pre.daily_used(caller, now));
        }
        if used > self.max_deposit_per_day || amount > self.max_deposit_per_day - used {
            return Err(VaultError::RateLimitExceeded);
        }

        // management-fee sweep, computed first, applied only once all the
        // later checks pass
        let fee: u128;
        if now >= self.last_fee_collection && now - self.last_fee_collection >= 3600 {
            match self.compute_mgmt_fee(now) {
                Ok(f) => {
                    fee = f;
                },
                Err(e) => {
                    return Err(e);
                },
            }
        } else {
            fee = 0;
        }
        proof {
            assert(fee as int == pre.sweep_fee(now));
        }

        let ta = self.total_assets();
        if amount > MAX_TOTAL - ta {
            return Err(VaultError::ArithmeticOverflow);
        }
        let ts_after: u128 = self.total_shares + fee;
        let minted: u128 = if ts_after == 0 {
            amount
        } else if ta == 0 {
            amount
        } else {
            mul_div(amount, ts_after, ta)
        };
        proof {
            assert(minted as int == pre.deposit_minted(amount, now));
        }
        if minted < self.min_shares {
            return Err(VaultError::InsufficientBalance);
        }
        if minted > MAX_TOTAL - ts_after {
            return Err(VaultError::ArithmeticOverflow);
        }
        let cb: u128;
        let td: u128;
        match find_user(&self.users, caller) {
            Some(i) => {
                proof {
                    lemma_user_index_props(self.users@, caller);
                }
                cb = self.users[i].deposit.cost_basis;
                td = self.users[i].deposit.total_deposited;
            },
            None => {
                cb = 0;
                td = 0;
            },
        }
        proof {
            assert(cb == deposit_of(pre.users@, caller).cost_basis);
            assert(td == deposit_of(pre.users@, caller).total_deposited);
        }
        if amount > u128::MAX - cb || amount > u128::MAX - td {
            return Err(VaultError::ArithmeticOverflow);
        }
        assert(pre.deposit_err(caller, amount, now) is None);

        // every check has passed: apply the sweep, the split and the mint
        if fee > 0 {
            self.mint_treasury(fee, now);
        }
        proof {
            assert(self.users@ == pre.sweep_users(now));
            assert(self.events@ == pre.sweep_events(now));
            assert(self.total_shares == ts_after);
            if fee > 0 {
                lemma_upsert_add_shares_props(pre.users@, pre.treasury, fee as int);
            }
        }

        // pool replenishment split
        let target = mul_div(ta + amount, self.instant_pool_target_bps as u128,
            BPS_DENOM as u128);
        proof {
            lemma_bps_within_amount(ta as int + amount, self.instant_pool_target_bps as int);
        }
        let topup: u128 = if self.instant_pool >= target {
            0
        } else if target - self.instant_pool >= amount {
            amount
        } else {
            target - self.instant_pool
        };
        proof {
            assert(topup as int == pre.deposit_topup(amount));
            assert(self.instant_pool + topup <= MAX_TOTAL);
        }
        self.instant_pool = self.instant_pool + topup;
        self.strategy_assets = self.strategy_assets + (amount - topup);
        self.total_shares = self.total_shares + minted;

        // record the deposit against the caller's daily window
        let de = DailyEntry { user: caller, window_start: window, amount: used + amount };
        let ghost daily0 = self.daily@;
        match find_daily(&self.daily, caller) {
            Some(i) => {
                self.daily[i] = de;
            },
            None => {
                self.daily.push(de);
            },
        }
        proof {
            assert(self.daily@ == upsert_daily(pre.daily@, caller, window, used as int + amount));
            lemma_upsert_daily_props(daily0, caller, window, used as int + amount);
        }

        // credit the shares and accumulate the cost basis
        let ghost users1 = self.users@;
        proof {
            self.lemma_users_wf_after_sweep(pre, now);
            assert(users_unique(users1));
            assert(sum_shares(users1) + locked_shares(self.requests@) == ts_after);
            lemma_user_index_props(users1, caller);
            let i = user_index(users1, caller);
            if i >= 0 {
                lemma_entry_le_sum(users1, i);
            }
            lemma_locked_nonneg(self.requests@);
            lemma_sum_shares_nonneg(users1);
        }
        match find_user(&self.users, caller) {
            Some(i) => {
                let e = self.users[i];
                self.users[i] = UserEntry {
                    user: caller,
                    shares: e.shares + minted,
                    deposit: UserDeposit {
                        cost_basis: e.deposit.cost_basis + amount,
                        total_deposited: e.deposit.total_deposited + amount,
                        last_deposit_time: now,
                    },
                };
            },
            None => {
                self.users.push(
                    UserEntry {
                        user: caller,
                        shares: minted,
                        deposit: UserDeposit {
                            cost_basis: amount,
                            total_deposited: amount,
                            last_deposit_time: now,
                        },
                    },
                );
            },
        }
        proof {
            assert(self.users@ == upsert_deposit(users1, caller, minted as int, amount as int,
                now));
            lemma_upsert_deposit_props(users1, caller, minted as int, amount as int, now);
        }

        self.events.push(
            VaultEvent::Deposit { user: caller, amount, shares_minted: minted, timestamp: now },
        );
        Ok(minted)
    }

    /// Base-asset value of `shares` at the current ratio.
    pub open spec fn withdraw_value(self, shares: u128) -> int {
        assets_for_shares(shares as int, self.total_shares as int, self.total_assets_spec())
    }

    /// Performance fee a withdrawal of `shares` by `caller` pays: charged on
    /// the value above the caller's stored cost basis (an absent record
    /// makes the whole value count as profit).
    pub open spec fn withdraw_fee(self, caller: u64, shares: u128) -> int {
        performance_fee(
            self.withdraw_value(shares),
            basis_of(self.users@, caller),
            self.performance_fee_bps as int,
        )
    }

    /// Quote the performance fee a withdrawal worth `withdrawal_amount`
    /// would pay for `user`: the fee rate applied to the profit above the
    /// stored cost basis, and exactly zero when there is no profit. A user
    /// without a deposit record has the whole amount counted as profit.
    pub fn calculate_performance_fee(&self, user: u64, withdrawal_amount: u128) -> (r: u128)
        requires
            self.wf(),
            withdrawal_amount <= MAX_TOTAL,
        ensures
            r == performance_fee(withdrawal_amount as int, basis_of(self.users@, user),
                self.performance_fee_bps as int),
            withdrawal_amount <= basis_of(self.users@, user) ==> r == 0,
    {
        let basis: u128 = match find_user(&self.users, user) {
            Some(i) => self.users[i].deposit.cost_basis,
            None => 0,
        };
        if withdrawal_amount <= basis {
            0
        } else {
            mul_div(withdrawal_amount - basis, self.performance_fee_bps as u128,
                BPS_DENOM as u128)
        }
    }

    /// The error a regular withdrawal fails with, if any. Withdrawals stay
    /// open while paused, so a pause cannot trap funds.
    pub open spec fn withdraw_err(self, caller: u64, shares: u128) -> Option<VaultError> {
        if self.guard.entered() {
            Some(VaultError::ReentrancyGuard)
        } else if shares == 0 || shares > shares_of(self.users@, caller) {
            Some(VaultError::InsufficientBalance)
        } else if self.fees_collected + self.withdraw_fee(caller, shares) > u128::MAX {
            Some(VaultError::ArithmeticOverflow)
        } else {
            None
        }
    }

    /// Withdraw by burning `shares` immediately: liquidity is drawn from the
    /// instant pool first and from the strategy collaborators for any
    /// shortfall; the performance fee is deducted from the payout.
    ///
    /// Returns the net assets paid out. Fails with `InsufficientBalance` on
    /// a zero share count or one above the caller's spendable balance; any
    /// failure leaves the state exactly as it was.
    #[verifier::rlimit(100)]
    pub fn withdraw(&mut self, caller: u64, shares: u128, now: u64) -> (r: Result<
        u128,
        VaultError,
    >)
        requires
            old(self).wf(),
        ensures
            final(self).wf(),
            match old(self).withdraw_err(caller, shares) {
                Some(e) => r == Err::<u128, VaultError>(e) && VaultState::same_state(*final(self),
                    *old(self)),
                None => {
                    &&& r == Ok::<u128, VaultError>(
                        (old(self).withdraw_value(shares) - old(self).withdraw_fee(caller,
                        shares)) as u128,
                    )
                    &&& final(self).total_shares == old(self).total_shares - shares
                    &&& final(self).total_assets_spec() == old(self).total_assets_spec() - old(
                        self,
                    ).withdraw_value(shares)
                    &&& final(self).instant_pool == (if old(self).withdraw_value(shares) <= old(
                        self,
                    ).instant_pool {
                        old(self).instant_pool - old(self).withdraw_value(shares)
                    } else {
                        0
                    })
                    &&& final(self).fees_collected == old(self).fees_collected + old(
                        self,
                    ).withdraw_fee(caller, shares)
                    &&& final(self).users@ == burn_shares(old(self).users@, caller, shares as int)
                    &&& shares_of(final(self).users@, caller) == shares_of(old(self).users@,
                        caller) - shares
                    &&& final(self).daily@ == old(self).daily@
                    &&& final(self).requests@ == old(self).requests@
                    &&& final(self).events@ == old(self).events@.push(
                        VaultEvent::Withdraw {
                            user: caller,
                            assets: (old(self).withdraw_value(shares) - old(self).withdraw_fee(
                                caller,
                                shares,
                            )) as u128,
                            shares,
                            fee: old(self).withdraw_fee(caller, shares) as u128,
                            timestamp: now,
                        },
                    )
                    &&& final(self).pausable == old(self).pausable
                    &&& final(self).guard == old(self).guard
                    &&& final(self).last_fee_collection == old(self).last_fee_collection
                    &&& VaultState::same_params(*final(self), *old(self))
                },
            },
    {
        let ghost pre = *old(self);
        if self.guard.is_entered() {
            return Err(VaultError::ReentrancyGuard);
        }
        let idx_opt = find_user(&self.users, caller);
        let bal: u128 = match idx_opt {
            Some(i) => self.users[i].shares,
            None => 0,
        };
        if shares == 0 || shares > bal {
            return Err(VaultError::InsufficientBalance);
        }
        let i = match idx_opt {
            Some(i) => i,
            None => {
                // unreachable: a positive spendable balance implies a
                // stored entry
                proof {
                    assert(false);
                }
                return Err(VaultError::InsufficientBalance);
            },
        };
        proof {
            self.lemma_user_shares_le_total(caller);
            lemma_user_index_props(self.users@, caller);
        }
        let value = self.convert_to_assets(shares);
        proof {
            lemma_assets_within_total(shares as int, self.total_shares as int,
                self.total_assets_spec());
        }
        let basis = self.users[i].deposit.cost_basis;
        let fee: u128 = if value <= basis {
            0
        } else {
            mul_div(value - basis, self.performance_fee_bps as u128, BPS_DENOM as u128)
        };
        proof {
            assert(fee == pre.withdraw_fee(caller, shares));
            lemma_performance_fee_bounds(value as int, basis as int,
                self.performance_fee_bps as int);
        }
        if fee > u128::MAX - self.fees_collected {
            return Err(VaultError::ArithmeticOverflow);
        }

        // draw liquidity: instant pool first, strategies for the shortfall
        if value <= self.instant_pool {
            self.instant_pool = self.instant_pool - value;
        } else {
            let shortfall = value - self.instant_pool;
            self.instant_pool = 0;
            self.strategy_assets = self.strategy_assets - shortfall;
        }
        self.fees_collected = self.fees_collected + fee;

        // burn the shares, dropping the position once the balance is zero
        let ghost users0 = self.users@;
        proof {
            lemma_burn_shares_props(users0, caller, shares as int);
        }
        let e = self.users[i];
        if e.shares == shares {
            self.users.remove(i);
        } else {
            self.users[i] = UserEntry {
                user: caller,
                shares: e.shares - shares,
                deposit: e.deposit,
            };
        }
        proof {
            assert(self.users@ == burn_shares(users0, caller, shares as int));
        }
        self.total_shares = self.total_shares - shares;
        self.events.push(
            VaultEvent::Withdraw {
                user: caller,
                assets: value - fee,
                shares,
                fee,
                timestamp: now,
            },
        );
        Ok(value - fee)
    }

    /// The error a withdrawal request fails with, if any. Requests stay
    /// open while paused.
    pub open spec fn request_err(self, caller: u64, shares: u128) -> Option<VaultError> {
        if self.guard.entered() {
            Some(VaultError::ReentrancyGuard)
        } else if shares == 0 || shares > shares_of(self.users@, caller) {
            Some(VaultError::InsufficientBalance)
        } else {
            None
        }
    }

    /// Request a time-locked withdrawal of `shares`: the payout value is
    /// snapshotted now, the shares leave the caller's spendable balance
    /// immediately (locked, not burned — `totalShares` keeps counting them
    /// until completion), and the request unlocks after the timelock. No
    /// instant fee is ever charged on this path: that is its incentive.
    ///
    /// Returns the fresh request id.
    #[verifier::rlimit(100)]
    pub fn request_withdrawal(&mut self, caller: u64, shares: u128, now: u64) -> (r: Result<
        u64,
        VaultError,
    >)
        requires
            old(self).wf(),
            now + old(self).withdrawal_timelock <= u64::MAX,
        ensures
            final(self).wf(),
            match old(self).request_err(caller, shares) {
                Some(e) => r == Err::<u64, VaultError>(e) && VaultState::same_state(*final(self),
                    *old(self)),
                None => {
                    &&& r == Ok::<u64, VaultError>(old(self).requests@.len() as u64)
                    &&& final(self).requests@ == old(self).requests@.push(
                        WithdrawalRequest {
                            user: caller,
                            shares,
                            assets_value: old(self).withdraw_value(shares) as u128,
                            unlock_time: (now + old(self).withdrawal_timelock) as u64,
                            completed: false,
                        },
                    )
                    &&& final(self).users@ == lock_user_shares(old(self).users@, caller,
                        shares as int)
                    &&& shares_of(final(self).users@, caller) == shares_of(old(self).users@,
                        caller) - shares
                    &&& final(self).total_shares == old(self).total_shares
                    &&& final(self).instant_pool == old(self).instant_pool
                    &&& final(self).strategy_assets == old(self).strategy_assets
                    &&& final(self).fees_collected == old(self).fees_collected
                    &&& final(self).daily@ == old(self).daily@
                    &&& final(self).events@ == old(self).events@.push(
                        VaultEvent::WithdrawalRequested {
                            user: caller,
                            request_id: old(self).requests@.len() as u64,
                            shares,
                            assets_value: old(self).withdraw_value(shares) as u128,
                            unlock_time: (now + old(self).withdrawal_timelock) as u64,
                        },
                    )
                    &&& final(self).pausable == old(self).pausable
                    &&& final(self).guard == old(self).guard
                    &&& final(self).last_fee_collection == old(self).last_fee_collection
                    &&& VaultState::same_params(*final(self), *old(self))
                },
            },
    {
        let ghost pre = *old(self);
        if self.guard.is_entered() {
            return Err(VaultError::ReentrancyGuard);
        }
        let idx_opt = find_user(&self.users, caller);
        let bal: u128 = match idx_opt {
            Some(i) => self.users[i].shares,
            None => 0,
        };
        if shares == 0 || shares > bal {
            return Err(VaultError::InsufficientBalance);
        }
        let i = match idx_opt {
            Some(i) => i,
            None => {
                // unreachable: a positive spendable balance implies a
                // stored entry
                proof {
                    assert(false);
                }
                return Err(VaultError::InsufficientBalance);
            },
        };
        proof {
            self.lemma_user_shares_le_total(caller);
            lemma_user_index_props(self.users@, caller);
        }
        let assets_value = self.convert_to_assets(shares);
        let request_id = self.requests.len() as u64;
        let unlock_time = now + self.withdrawal_timelock;
        let request = WithdrawalRequest {
            user: caller,
            shares,
            assets_value,
            unlock_time,
            completed: false,
        };
        proof {
            lemma_locked_push(self.requests@, request);
            lemma_lock_shares_props(self.users@, caller, shares as int);
        }
        self.requests.push(request);

        // lock the shares out of the spendable balance; the entry stays
        let e = self.users[i];
        self.users[i] = UserEntry { user: caller, shares: e.shares - shares, deposit: e.deposit };

        self.events.push(
            VaultEvent::WithdrawalRequested {
                user: caller,
                request_id,
                shares,
                assets_value,
                unlock_time,
            },
        );
        Ok(request_id)
    }

    /// Performance fee the completion of request `id` by `caller` pays,
    /// charged on the snapshotted value against the caller's current cost
    /// basis.
    pub open spec fn complete_fee(self, caller: u64, id: u64) -> int {
        performance_fee(
            self.requests@[id as int].assets_value as int,
            basis_of(self.users@, caller),
            self.performance_fee_bps as int,
        )
    }

    /// The error a completion fails with, if any: unknown id; wrong owner;
    /// already completed (completing twice fails the second time with no
    /// state change); timelock still running; liquidity short of the
    /// snapshotted value; fee-counter overflow. Completions stay open while
    /// paused.
    pub open spec fn complete_err(self, caller: u64, id: u64, now: u64) -> Option<VaultError> {
        if self.guard.entered() {
            Some(VaultError::ReentrancyGuard)
        } else if id >= self.requests@.len() {
            Some(VaultError::WithdrawalRequestNotFound)
        } else if self.requests@[id as int].user != caller {
            Some(VaultError::Unauthorized)
        } else if self.requests@[id as int].completed {
            Some(VaultError::InvalidRequest)
        } else if now < self.requests@[id as int].unlock_time {
            Some(VaultError::TimelockNotExpired)
        } else if self.requests@[id as int].assets_value > self.total_assets_spec() {
            Some(VaultError::InsufficientLiquidity)
        } else if self.fees_collected + self.complete_fee(caller, id) > u128::MAX {
            Some(VaultError::ArithmeticOverflow)
        } else {
            None
        }
    }

    /// Complete a time-locked withdrawal after its timelock has expired.
    ///
    /// Pays the value snapshotted at request time — deliberately not
    /// re-priced — minus the performance fee on any profit over the caller's
    /// cost basis; liquidity is drawn from the pool first, then from the
    /// strategies; the locked shares are finally burned out of
    /// `totalShares`. Returns the net assets paid out.
    #[verifier::rlimit(100)]
    pub fn complete_withdrawal(&mut self, caller: u64, request_id: u64, now: u64) -> (r: Result<
        u128,
        VaultError,
    >)
        requires
            old(self).wf(),
        ensures
            final(self).wf(),
            match old(self).complete_err(caller, request_id, now) {
                Some(e) => r == Err::<u128, VaultError>(e) && VaultState::same_state(*final(self),
                    *old(self)),
                None => {
                    &&& r == Ok::<u128, VaultError>(
                        (old(self).requests@[request_id as int].assets_value - old(
                            self,
                        ).complete_fee(caller, request_id)) as u128,
                    )
                    &&& final(self).requests@ == old(self).requests@.update(
                        request_id as int,
                        WithdrawalRequest {
                            completed: true,
                            ..old(self).requests@[request_id as int]
                        },
                    )
                    &&& final(self).total_shares == old(self).total_shares - old(
                        self,
                    ).requests@[request_id as int].shares
                    &&& final(self).total_assets_spec() == old(self).total_assets_spec() - old(
                        self,
                    ).requests@[request_id as int].assets_value
                    &&& final(self).instant_pool == (if old(
                        self,
                    ).requests@[request_id as int].assets_value <= old(self).instant_pool {
                        old(self).instant_pool - old(
                            self,
                        ).requests@[request_id as int].assets_value
                    } else {
                        0
                    })
                    &&& final(self).fees_collected == old(self).fees_collected + old(
                        self,
                    ).complete_fee(caller, request_id)
                    &&& final(self).users@ == old(self).users@
                    &&& final(self).daily@ == old(self).daily@
                    &&& final(self).events@ == old(self).events@.push(
                        VaultEvent::WithdrawalCompleted {
                            user: caller,
                            request_id,
                            assets: (old(self).requests@[request_id as int].assets_value - old(
                                self,
                            ).complete_fee(caller, request_id)) as u128,
                            shares: old(self).requests@[request_id as int].shares,
                            fee: old(self).complete_fee(caller, request_id) as u128,
                            timestamp: now,
                        },
                    )
                    &&& final(self).pausable == old(self).pausable
                    &&& final(self).guard == old(self).guard
                    &&& final(self).last_fee_collection == old(self).last_fee_collection
                    &&& VaultState::same_params(*final(self), *old(self))
                },
            },
    {
        let ghost pre = *old(self);
        if self.guard.is_entered() {
            return Err(VaultError::ReentrancyGuard);
        }
        if request_id >= self.requests.len() as u64 {
            return Err(VaultError::WithdrawalRequestNotFound);
        }
        let i = request_id as usize;
        let request = self.requests[i];
        if request.user != caller {
            return Err(VaultError::Unauthorized);
        }
        if request.completed {
            return Err(VaultError::InvalidRequest);
        }
        if now < request.unlock_time {
            return Err(VaultError::TimelockNotExpired);
        }
        let value = request.assets_value;
        let ta = self.total_assets();
        if value > ta {
            return Err(VaultError::InsufficientLiquidity);
        }

        // the performance fee applies to the snapshotted value
        let basis: u128 = match find_user(&self.users, caller) {
            Some(j) => self.users[j].deposit.cost_basis,
            None => 0,
        };
        let fee: u128 = if value <= basis {
            0
        } else {
            mul_div(value - basis, self.performance_fee_bps as u128, BPS_DENOM as u128)
        };
        proof {
            assert(fee == pre.complete_fee(caller, request_id));
            lemma_performance_fee_bounds(value as int, basis as int,
                self.performance_fee_bps as int);
        }
        if fee > u128::MAX - self.fees_collected {
            return Err(VaultError::ArithmeticOverflow);
        }

        // all checks passed: settle
        proof {
            lemma_locked_update(self.requests@, i as int,
                WithdrawalRequest { completed: true, ..request });
            lemma_request_le_locked(self.requests@, i as int);
            lemma_sum_shares_nonneg(self.users@);
        }
        self.requests[i] = WithdrawalRequest { completed: true, ..request };
        if value <= self.instant_pool {
            self.instant_pool = self.instant_pool - value;
        } else {
            let shortfall = value - self.instant_pool;
            self.instant_pool = 0;
            self.strategy_assets = self.strategy_assets - shortfall;
        }
        self.fees_collected = self.fees_collected + fee;
        self.total_shares = self.total_shares - request.shares;
        self.events.push(
            VaultEvent::WithdrawalCompleted {
                user: caller,
                request_id,
                assets: value - fee,
                shares: request.shares,
                fee,
                timestamp: now,
            },
        );
        Ok(value - fee)
    }

    /// Flat instant-withdrawal fee on the value of `shares`.
    pub open spec fn instant_fee_of(self, shares: u128) -> int {
        bps_of(self.withdraw_value(shares), self.instant_withdrawal_fee_bps as int)
    }

    /// Total fee an instant withdrawal pays: the flat instant fee on top of
    /// the performance fee.
    pub open spec fn instant_total_fee(self, caller: u64, shares: u128) -> int {
        self.instant_fee_of(shares) + self.withdraw_fee(caller, shares)
    }

    /// The error an instant withdrawal fails with, if any. This fee-bearing
    /// fast path is blocked while paused, and is limited to what the instant
    /// pool holds — it exists specifically to avoid touching the
    /// strategies.
    pub open spec fn instant_err(self, caller: u64, shares: u128) -> Option<VaultError> {
        if self.pausable.paused {
            Some(VaultError::ContractPaused)
        } else if self.guard.entered() {
            Some(VaultError::ReentrancyGuard)
        } else if shares == 0 || shares > shares_of(self.users@, caller) {
            Some(VaultError::InsufficientBalance)
        } else if self.withdraw_value(shares) > self.instant_pool {
            Some(VaultError::InsufficientLiquidity)
        } else if self.fees_collected + self.instant_total_fee(caller, shares) > u128::MAX {
            Some(VaultError::ArithmeticOverflow)
        } else {
            None
        }
    }

    /// Withdraw `shares` instantly out of the instant pool, paying the flat
    /// instant-withdrawal fee on top of the performance fee.
    ///
    /// Returns the net assets paid out. Fails with `InsufficientLiquidity`
    /// when the pool cannot cover the value; any failure leaves the state
    /// exactly as it was.
    #[verifier::rlimit(100)]
    pub fn instant_withdraw(&mut self, caller: u64, shares: u128, now: u64) -> (r: Result<
        u128,
        VaultError,
    >)
        requires
            old(self).wf(),
        ensures
            final(self).wf(),
            match old(self).instant_err(caller, shares) {
                Some(e) => r == Err::<u128, VaultError>(e) && VaultState::same_state(*final(self),
                    *old(self)),
                None => {
                    &&& r == Ok::<u128, VaultError>(
                        (old(self).withdraw_value(shares) - old(self).instant_total_fee(caller,
                        shares)) as u128,
                    )
                    &&& final(self).total_shares == old(self).total_shares - shares
                    &&& final(self).instant_pool == old(self).instant_pool - old(
                        self,
                    ).withdraw_value(shares)
                    &&& final(self).strategy_assets == old(self).strategy_assets
                    &&& final(self).fees_collected == old(self).fees_collected + old(
                        self,
                    ).instant_total_fee(caller, shares)
                    &&& final(self).users@ == burn_shares(old(self).users@, caller, shares as int)
                    &&& shares_of(final(self).users@, caller) == shares_of(old(self).users@,
                        caller) - shares
                    &&& final(self).daily@ == old(self).daily@
                    &&& final(self).requests@ == old(self).requests@
                    &&& final(self).events@ == old(self).events@.push(
                        VaultEvent::InstantWithdrawal {
                            user: caller,
                            assets: (old(self).withdraw_value(shares) - old(
                                self,
                            ).instant_total_fee(caller, shares)) as u128,
                            shares,
                            fee: old(self).instant_total_fee(caller, shares) as u128,
                            timestamp: now,
                        },
                    )
                    &&& final(self).pausable == old(self).pausable
                    &&& final(self).guard == old(self).guard
                    &&& final(self).last_fee_collection == old(self).last_fee_collection
                    &&& VaultState::same_params(*final(self), *old(self))
                },
            },
    {
        let ghost pre = *old(self);
        if self.pausable.is_paused() {
            return Err(VaultError::ContractPaused);
        }
        if self.guard.is_entered() {
            return Err(VaultError::ReentrancyGuard);
        }
        let idx_opt = find_user(&self.users, caller);
        let bal: u128 = match idx_opt {
            Some(i) => self.users[i].shares,
            None => 0,
        };
        if shares == 0 || shares > bal {
            return Err(VaultError::InsufficientBalance);
        }
        let i = match idx_opt {
            Some(i) => i,
            None => {
                // unreachable: a positive spendable balance implies a
                // stored entry
                proof {
                    assert(false);
                }
                return Err(VaultError::InsufficientBalance);
            },
        };
        proof {
            self.lemma_user_shares_le_total(caller);
            lemma_user_index_props(self.users@, caller);
        }
        let value = self.convert_to_assets(shares);
        if value > self.instant_pool {
            return Err(VaultError::InsufficientLiquidity);
        }

        let instant_fee = mul_div(value, self.instant_withdrawal_fee_bps as u128,
            BPS_DENOM as u128);
        let basis = self.users[i].deposit.cost_basis;
        let performance = if value <= basis {
            0
        } else {
            mul_div(value - basis, self.performance_fee_bps as u128, BPS_DENOM as u128)
        };
        proof {
            assert(performance == pre.withdraw_fee(caller, shares));
            crate::math::lemma_combined_fee_within(value as int, basis as int,
                self.instant_withdrawal_fee_bps as int, self.performance_fee_bps as int);
        }
        let total_fees = instant_fee + performance;
        if total_fees > u128::MAX - self.fees_collected {
            return Err(VaultError::ArithmeticOverflow);
        }

        self.instant_pool = self.instant_pool - value;
        self.fees_collected = self.fees_collected + total_fees;

        // burn the shares, dropping the position once the balance is zero
        let ghost users0 = self.users@;
        proof {
            lemma_burn_shares_props(users0, caller, shares as int);
        }
        let e = self.users[i];
        if e.shares == shares {
            self.users.remove(i);
        } else {
            self.users[i] = UserEntry {
                user: caller,
                shares: e.shares - shares,
                deposit: e.deposit,
            };
        }
        self.total_shares = self.total_shares - shares;
        self.events.push(
            VaultEvent::InstantWithdrawal {
                user: caller,
                assets: value - total_fees,
                shares,
                fee: total_fees,
                timestamp: now,
            },
        );
        Ok(value - total_fees)
    }

    /// After the sweep, the position list is still well-formed against the
    /// swept share supply.
    proof fn lemma_users_wf_after_sweep(self, pre: VaultState, now: u64)
        requires
            pre.wf(),
            self.users@ == pre.sweep_users(now),
            self.requests@ == pre.requests@,
            pre.sweep_total_shares(now) <= MAX_TOTAL,
        ensures
            users_unique(self.users@),
            sum_shares(self.users@) + locked_shares(self.requests@) == pre.sweep_total_shares(
                now,
            ),
            forall|w: u64| deposit_of(self.users@, w) == deposit_of(pre.users@, w),
    {
        if pre.sweep_fee(now) > 0 {
            pre.lemma_user_shares_le_total(pre.treasury);
            lemma_upsert_add_shares_props(pre.users@, pre.treasury, pre.sweep_fee(now));
        }
    }
}

} // verus!

