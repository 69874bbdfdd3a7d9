//! Per-user records: share balances with their deposit-tracking data, and
//! the rolling 24-hour deposit counters.
//!
//! Both are kept as key-ordered-by-history lists with unique caller keys; the
//! spec functions here give them their map-like reading, and the lemmas relate
//! that reading across the updates the engine performs.

use vstd::prelude::*;

verus! {

/// Deposit tracking for one user, the profit floor for the performance fee.
#[derive(Debug, Clone, Copy, PartialEq, Eq, Structural)]
pub struct UserDeposit {
    /// Cumulative base-asset amount deposited; never reduced on withdrawal.
    pub cost_basis: u128,
    /// Cumulative base-asset amount deposited (audit counter).
    pub total_deposited: u128,
    /// Timestamp of the most recent deposit.
    pub last_deposit_time: u64,
}

/// One user's position: spendable share balance plus deposit tracking.
#[derive(Debug, Clone, Copy, PartialEq, Eq, Structural)]
pub struct UserEntry {
    /// Caller identity.
    pub user: u64,
    /// Spendable share balance (locked request shares are excluded).
    pub shares: u128,
    /// Deposit tracking record.
    pub deposit: UserDeposit,
}

/// Rolling 24-hour deposit counter for one user.
#[derive(Debug, Clone, Copy, PartialEq, Eq, Structural)]
pub struct DailyEntry {
    /// Caller identity.
    pub user: u64,
    /// Start of the current 24-hour window.
    pub window_start: u64,
    /// Amount deposited within the current window.
    pub amount: u128,
}

/// The all-zero deposit record, the reading of an absent one.
pub open spec fn zero_deposit() -> UserDeposit {
    UserDeposit { cost_basis: 0, total_deposited: 0, last_deposit_time: 0 }
}

/// Index of `user`'s entry in `s`, or -1 if absent.
pub open spec fn user_index(s: Seq<UserEntry>, user: u64) -> int
    decreases s.len(),
{
    if s.len() == 0 {
        -1
    } else if s.last().user == user {
        s.len() - 1
    } else {
        user_index(s.drop_last(), user)
    }
}

/// Whether `user` holds a position in `s`.
pub open spec fn has_position(s: Seq<UserEntry>, user: u64) -> bool {
    user_index(s, user) >= 0
}

/// `user`'s spendable share balance, 0 if absent.
pub open spec fn shares_of(s: Seq<UserEntry>, user: u64) -> int {
    if user_index(s, user) >= 0 {
        s[user_index(s, user)].shares as int
    } else {
        0
    }
}

/// `user`'s deposit record, all-zero if absent.
pub open spec fn deposit_of(s: Seq<UserEntry>, user: u64) -> UserDeposit {
    if user_index(s, user) >= 0 {
        s[user_index(s, user)].deposit
    } else {
        zero_deposit()
    }
}

/// `user`'s stored cost basis, 0 if absent — an absent record makes a whole
/// withdrawal count as profit.
pub open spec fn basis_of(s: Seq<UserEntry>, user: u64) -> int {
    deposit_of(s, user).cost_basis as int
}

/// No two entries share a caller key.
pub open spec fn users_unique(s: Seq<UserEntry>) -> bool {
    forall|i: int, j: int| 0 <= i < j < s.len() ==> s[i].user != s[j].user
}

/// Sum of all spendable share balances.
pub open spec fn sum_shares(s: Seq<UserEntry>) -> int
    decreases s.len(),
{
    if s.len() == 0 {
        0
    } else {
        sum_shares(s.drop_last()) + s.last().shares
    }
}

/// `user_index` lands in bounds, on an entry with the right key, and is -1
/// exactly when no entry carries the key.
pub proof fn lemma_user_index_props(s: Seq<UserEntry>, user: u64)
    ensures
        -1 <= user_index(s, user) < s.len(),
        user_index(s, user) >= 0 ==> s[user_index(s, user)].user == user,
        user_index(s, user) == -1 ==> forall|i: int| 0 <= i < s.len() ==> s[i].user != user,
    decreases s.len(),
{
    if s.len() > 0 && s.last().user != user {
        lemma_user_index_props(s.drop_last(), user);
        if user_index(s, user) == -1 {
            assert forall|i: int| 0 <= i < s.len() implies s[i].user != user by {
                if i < s.len() - 1 {
                    assert(s.drop_last()[i] == s[i]);
                }
            }
        }
    }
}

/// With unique keys, the entry holding `user`'s key is the one `user_index`
/// finds.
pub proof fn lemma_user_index_unique(s: Seq<UserEntry>, user: u64, i: int)
    requires
        users_unique(s),
        0 <= i < s.len(),
        s[i].user == user,
    ensures
        user_index(s, user) == i,
    decreases s.len(),
{
    if s.last().user == user {
        assert(i == s.len() - 1);
    } else {
        assert(i < s.len() - 1);
        assert(users_unique(s.drop_last())) by {
            assert forall|p: int, q: int|
                0 <= p < q < s.drop_last().len() implies s.drop_last()[p].user
                != s.drop_last()[q].user by {
                assert(s.drop_last()[p] == s[p]);
                assert(s.drop_last()[q] == s[q]);
            }
        }
        assert(s.drop_last()[i] == s[i]);
        lemma_user_index_unique(s.drop_last(), user, i);
    }
}

/// The sum of balances is never negative.
pub proof fn lemma_sum_shares_nonneg(s: Seq<UserEntry>)
    ensures
        sum_shares(s) >= 0,
    decreases s.len(),
{
    if s.len() > 0 {
        lemma_sum_shares_nonneg(s.drop_last());
    }
}

/// Appending an entry adds its balance to the sum.
pub proof fn lemma_sum_shares_push(s: Seq<UserEntry>, e: UserEntry)
    ensures
        sum_shares(s.push(e)) == sum_shares(s) + e.shares,
{
    assert(s.push(e).drop_last() =~= s);
}

/// Replacing the entry at `i` moves the sum by the change in its balance.
pub proof fn lemma_sum_shares_update(s: Seq<UserEntry>, i: int, e: UserEntry)
    requires
        0 <= i < s.len(),
    ensures
        sum_shares(s.update(i, e)) == sum_shares(s) - s[i].shares + e.shares,
    decreases s.len(),
{
    if i == s.len() - 1 {
        assert(s.update(i, e).drop_last() =~= s.drop_last());
    } else {
        assert(s.update(i, e).drop_last() =~= s.drop_last().update(i, e));
        lemma_sum_shares_update(s.drop_last(), i, e);
    }
}

/// Removing the entry at `i` subtracts its balance from the sum.
pub proof fn lemma_sum_shares_remove(s: Seq<UserEntry>, i: int)
    requires
        0 <= i < s.len(),
    ensures
        sum_shares(s.remove(i)) == sum_shares(s) - s[i].shares,
    decreases s.len(),
{
    if i == s.len() - 1 {
        assert(s.remove(i) =~= s.drop_last());
    } else {
        assert(s.remove(i).drop_last() =~= s.drop_last().remove(i));
        assert(s.remove(i).last() == s.last());
        lemma_sum_shares_remove(s.drop_last(), i);
    }
}

/// Every single balance is bounded by the sum of all of them.
pub proof fn lemma_entry_le_sum(s: Seq<UserEntry>, i: int)
    requires
        0 <= i < s.len(),
    ensures
        s[i].shares <= sum_shares(s),
    decreases s.len(),
{
    lemma_sum_shares_nonneg(s.drop_last());
    if i < s.len() - 1 {
        assert(s.drop_last()[i] == s[i]);
        lemma_entry_le_sum(s.drop_last(), i);
    }
}

/// Two lists that agree on every key agree on every lookup index.
pub proof fn lemma_user_index_same_keys(s: Seq<UserEntry>, t: Seq<UserEntry>, user: u64)
    requires
        s.len() == t.len(),
        forall|k: int| 0 <= k < s.len() ==> s[k].user == t[k].user,
    ensures
        user_index(s, user) == user_index(t, user),
    decreases s.len(),
{
    if s.len() > 0 {
        assert(s.last().user == t.last().user);
        if s.last().user != user {
            assert forall|k: int| 0 <= k < s.drop_last().len() implies s.drop_last()[k].user
                == t.drop_last()[k].user by {
                assert(s.drop_last()[k] == s[k]);
                assert(t.drop_last()[k] == t[k]);
            }
            lemma_user_index_same_keys(s.drop_last(), t.drop_last(), user);
        }
    }
}

/// Updating one user's entry in place leaves every other user's reading
/// untouched.
pub proof fn lemma_lookup_after_update(s: Seq<UserEntry>, i: int, e: UserEntry, w: u64)
    requires
        0 <= i < s.len(),
        e.user == s[i].user,
        w != e.user,
    ensures
        shares_of(s.update(i, e), w) == shares_of(s, w),
        deposit_of(s.update(i, e), w) == deposit_of(s, w),
        has_position(s.update(i, e), w) == has_position(s, w),
{
    let t = s.update(i, e);
    lemma_user_index_same_keys(s, t, w);
    lemma_user_index_props(s, w);
    if user_index(s, w) >= 0 {
        assert(t[user_index(s, w)] == s[user_index(s, w)]);
    }
}

/// Appending a fresh user's entry leaves every other user's reading
/// untouched.
pub proof fn lemma_lookup_after_push(s: Seq<UserEntry>, e: UserEntry, w: u64)
    requires
        w != e.user,
    ensures
        shares_of(s.push(e), w) == shares_of(s, w),
        deposit_of(s.push(e), w) == deposit_of(s, w),
        has_position(s.push(e), w) == has_position(s, w),
{
    let t = s.push(e);
    assert(t.drop_last() =~= s);
    lemma_user_index_props(s, w);
    if user_index(s, w) >= 0 {
        assert(t[user_index(s, w)] == s[user_index(s, w)]);
    }
}

/// Removing one user's entry leaves every other user's reading untouched.
pub proof fn lemma_lookup_after_remove(s: Seq<UserEntry>, i: int, w: u64)
    requires
        0 <= i < s.len(),
        s[i].user != w,
    ensures
        shares_of(s.remove(i), w) == shares_of(s, w),
        deposit_of(s.remove(i), w) == deposit_of(s, w),
        has_position(s.remove(i), w) == has_position(s, w),
    decreases s.len(),
{
    let t = s.remove(i);
    lemma_user_index_props(s, w);
    lemma_user_index_props(t, w);
    if i == s.len() - 1 {
        assert(t =~= s.drop_last());
        assert(user_index(s, w) == user_index(t, w));
        if user_index(s, w) >= 0 {
            assert(t[user_index(s, w)] == s[user_index(s, w)]);
        }
    } else {
        assert(t.last() == s.last());
        if s.last().user == w {
            assert(user_index(s, w) == s.len() - 1);
            assert(user_index(t, w) == t.len() - 1);
            assert(t[t.len() - 1] == s[s.len() - 1]);
        } else {
            assert(t.drop_last() =~= s.drop_last().remove(i));
            lemma_lookup_after_remove(s.drop_last(), i, w);
            assert(user_index(t, w) == user_index(s.drop_last().remove(i), w));
            assert(user_index(s, w) == user_index(s.drop_last(), w));
            lemma_user_index_props(s.drop_last(), w);
            lemma_user_index_props(s.drop_last().remove(i), w);
            if user_index(s, w) >= 0 {
                assert(s[user_index(s, w)] == s.drop_last()[user_index(s.drop_last(), w)]);
            }
            if user_index(t, w) >= 0 {
                assert(t[user_index(t, w)] == s.drop_last().remove(i)[user_index(t, w)]);
            }
        }
    }
}

/// Uniqueness survives an in-place update that keeps the entry's key.
pub proof fn lemma_unique_after_update(s: Seq<UserEntry>, i: int, e: UserEntry)
    requires
        users_unique(s),
        0 <= i < s.len(),
        e.user == s[i].user,
    ensures
        users_unique(s.update(i, e)),
{
}

/// Uniqueness survives appending a key not yet present.
pub proof fn lemma_unique_after_push(s: Seq<UserEntry>, e: UserEntry)
    requires
        users_unique(s),
        user_index(s, e.user) == -1,
    ensures
        users_unique(s.push(e)),
{
    lemma_user_index_props(s, e.user);
}

/// Uniqueness survives removal.
pub proof fn lemma_unique_after_remove(s: Seq<UserEntry>, i: int)
    requires
        users_unique(s),
        0 <= i < s.len(),
    ensures
        users_unique(s.remove(i)),
{
    assert forall|p: int, q: int| 0 <= p < q < s.remove(i).len() implies s.remove(i)[p].user
        != s.remove(i)[q].user by {
        let sp = if p < i { p } else { p + 1 };
        let sq = if q < i { q } else { q + 1 };
        assert(s.remove(i)[p] == s[sp]);
        assert(s.remove(i)[q] == s[sq]);
    }
}

/// Find the index of `user`'s entry in `v`, if any.
pub fn find_user(v: &Vec<UserEntry>, user: u64) -> (r: Option<usize>)
    ensures
        match r {
            Some(i) => user_index(v@, user) == i as int && (i as int) < v@.len(),
            None => user_index(v@, user) == -1,
        },
{
    let mut i: usize = v.len();
    proof {
        assert(v@.subrange(0, i as int) =~= v@);
    }
    while i > 0
        invariant
            i <= v@.len(),
            user_index(v@, user) == user_index(v@.subrange(0, i as int), user),
        decreases i,
    {
        i = i - 1;
        if v[i].user == user {
            proof {
                let pre = v@.subrange(0, i + 1 as int);
                assert(pre.last() == v@[i as int]);
            }
            return Some(i);
        }
        proof {
            let pre = v@.subrange(0, i + 1 as int);
            assert(pre.last() == v@[i as int]);
            assert(pre.drop_last() =~= v@.subrange(0, i as int));
        }
    }
    proof {
        assert(v@.subrange(0, 0) =~= Seq::<UserEntry>::empty());
    }
    None
}

/// Index of `user`'s daily counter in `s`, or -1 if absent.
pub open spec fn daily_index(s: Seq<DailyEntry>, user: u64) -> int
    decreases s.len(),
{
    if s.len() == 0 {
        -1
    } else if s.last().user == user {
        s.len() - 1
    } else {
        daily_index(s.drop_last(), user)
    }
}

/// Whether a daily counter exists for `user`.
pub open spec fn has_daily(s: Seq<DailyEntry>, user: u64) -> bool {
    daily_index(s, user) >= 0
}

/// Start of `user`'s current 24-hour window, 0 if absent.
pub open spec fn window_of(s: Seq<DailyEntry>, user: u64) -> u64 {
    if daily_index(s, user) >= 0 {
        s[daily_index(s, user)].window_start
    } else {
        0
    }
}

/// Amount `user` deposited within the current window, 0 if absent.
pub open spec fn daily_amount_of(s: Seq<DailyEntry>, user: u64) -> int {
    if daily_index(s, user) >= 0 {
        s[daily_index(s, user)].amount as int
    } else {
        0
    }
}

/// No two daily counters share a caller key.
pub open spec fn daily_unique(s: Seq<DailyEntry>) -> bool {
    forall|i: int, j: int| 0 <= i < j < s.len() ==> s[i].user != s[j].user
}

/// `daily_index` lands in bounds, on an entry with the right key.
pub proof fn lemma_daily_index_props(s: Seq<DailyEntry>, user: u64)
    ensures
        -1 <= daily_index(s, user) < s.len(),
        daily_index(s, user) >= 0 ==> s[daily_index(s, user)].user == user,
    decreases s.len(),
{
    if s.len() > 0 && s.last().user != user {
        lemma_daily_index_props(s.drop_last(), user);
    }
}

/// Two counter lists that agree on every key agree on every lookup index.
pub proof fn lemma_daily_index_same_keys(s: Seq<DailyEntry>, t: Seq<DailyEntry>, user: u64)
    requires
        s.len() == t.len(),
        forall|k: int| 0 <= k < s.len() ==> s[k].user == t[k].user,
    ensures
        daily_index(s, user) == daily_index(t, user),
    decreases s.len(),
{
    if s.len() > 0 {
        assert(s.last().user == t.last().user);
        if s.last().user != user {
            assert forall|k: int| 0 <= k < s.drop_last().len() implies s.drop_last()[k].user
                == t.drop_last()[k].user by {
                assert(s.drop_last()[k] == s[k]);
                assert(t.drop_last()[k] == t[k]);
            }
            lemma_daily_index_same_keys(s.drop_last(), t.drop_last(), user);
        }
    }
}

/// Updating one user's counter in place leaves every other user's reading
/// untouched.
pub proof fn lemma_daily_after_update(s: Seq<DailyEntry>, i: int, e: DailyEntry, w: u64)
    requires
        0 <= i < s.len(),
        e.user == s[i].user,
        w != e.user,
    ensures
        window_of(s.update(i, e), w) == window_of(s, w),
        daily_amount_of(s.update(i, e), w) == daily_amount_of(s, w),
        has_daily(s.update(i, e), w) == has_daily(s, w),
{
    let t = s.update(i, e);
    lemma_daily_index_same_keys(s, t, w);
    lemma_daily_index_props(s, w);
    if daily_index(s, w) >= 0 {
        assert(t[daily_index(s, w)] == s[daily_index(s, w)]);
    }
}

/// Appending a fresh user's counter leaves every other user's reading
/// untouched.
pub proof fn lemma_daily_after_push(s: Seq<DailyEntry>, e: DailyEntry, w: u64)
    requires
        w != e.user,
    ensures
        window_of(s.push(e), w) == window_of(s, w),
        daily_amount_of(s.push(e), w) == daily_amount_of(s, w),
        has_daily(s.push(e), w) == has_daily(s, w),
{
    let t = s.push(e);
    assert(t.drop_last() =~= s);
    lemma_daily_index_props(s, w);
    if daily_index(s, w) >= 0 {
        assert(t[daily_index(s, w)] == s[daily_index(s, w)]);
    }
}

/// Uniqueness survives an in-place counter update that keeps the key.
pub proof fn lemma_daily_unique_after_update(s: Seq<DailyEntry>, i: int, e: DailyEntry)
    requires
        daily_unique(s),
        0 <= i < s.len(),
        e.user == s[i].user,
    ensures
        daily_unique(s.update(i, e)),
{
}

/// Uniqueness survives appending a key not yet present.
pub proof fn lemma_daily_unique_after_push(s: Seq<DailyEntry>, e: DailyEntry)
    requires
        daily_unique(s),
        daily_index(s, e.user) == -1,
    ensures
        daily_unique(s.push(e)),
{
    lemma_daily_index_props(s, e.user);
    assert forall|i: int| 0 <= i < s.len() implies s[i].user != e.user by {
        lemma_daily_index_unique_contra(s, e.user, i);
    }
}

/// If an entry carries the key, `daily_index` does not report it absent.
pub proof fn lemma_daily_index_unique_contra(s: Seq<DailyEntry>, user: u64, i: int)
    requires
        0 <= i < s.len(),
        daily_index(s, user) == -1,
    ensures
        s[i].user != user,
    decreases s.len(),
{
    if s.last().user != user && i < s.len() - 1 {
        assert(s.drop_last()[i] == s[i]);
        lemma_daily_index_unique_contra(s.drop_last(), user, i);
    }
}

/// Find the index of `user`'s daily counter in `v`, if any.
pub fn find_daily(v: &Vec<DailyEntry>, user: u64) -> (r: Option<usize>)
    ensures
        match r {
            Some(i) => daily_index(v@, user) == i as int && (i as int) < v@.len(),
            None => daily_index(v@, user) == -1,
        },
{
    let mut i: usize = v.len();
    proof {
        assert(v@.subrange(0, i as int) =~= v@);
    }
    while i > 0
        invariant
            i <= v@.len(),
            daily_index(v@, user) == daily_index(v@.subrange(0, i as int), user),
        decreases i,
    {
        i = i - 1;
        if v[i].user == user {
            proof {
                let pre = v@.subrange(0, i + 1 as int);
                assert(pre.last() == v@[i as int]);
            }
            return Some(i);
        }
        proof {
            let pre = v@.subrange(0, i + 1 as int);
            assert(pre.last() == v@[i as int]);
            assert(pre.drop_last() =~= v@.subrange(0, i as int));
        }
    }
    proof {
        assert(v@.subrange(0, 0) =~= Seq::<DailyEntry>::empty());
    }
    None
}

} // verus!
