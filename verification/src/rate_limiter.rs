//! Deposit/withdrawal volume rate limiting: a per-transaction cap, a rolling
//! 24-hour per-caller window, and rolling one-hour global windows — a pure
//! function of stored counters and the timestamps handed in.

use vstd::prelude::*;
use crate::errors::VaultError;

verus! {

/// Per-user limit state: caps snapshotted at first use, plus the rolling
/// 24-hour counter.
#[derive(Debug, Clone, Copy, PartialEq, Eq, Structural)]
pub struct RateLimit {
    /// Per-transaction cap at the time this record was created.
    pub max_per_tx: u128,
    /// Per-day cap at the time this record was created.
    pub max_per_day: u128,
    /// Amount deposited in the current 24-hour window.
    pub current_day_total: u128,
    /// Start of the current 24-hour window.
    pub last_reset: u64,
}

/// A user's limit record, keyed by caller identity.
#[derive(Debug, Clone, Copy, PartialEq, Eq, Structural)]
pub struct LimitEntry {
    /// Caller identity.
    pub user: u64,
    /// The user's limit state.
    pub limit: RateLimit,
}

/// Index of `user`'s limit record in `s`, or -1 if absent.
pub open spec fn limit_index(s: Seq<LimitEntry>, user: u64) -> int
    decreases s.len(),
{
    if s.len() == 0 {
        -1
    } else if s.last().user == user {
        s.len() - 1
    } else {
        limit_index(s.drop_last(), user)
    }
}

/// `user`'s stored limit record, if any.
pub open spec fn stored_limit(s: Seq<LimitEntry>, user: u64) -> Option<RateLimit> {
    if limit_index(s, user) >= 0 {
        Some(s[limit_index(s, user)].limit)
    } else {
        None
    }
}

/// No two limit records share a caller key.
pub open spec fn limits_unique(s: Seq<LimitEntry>) -> bool {
    forall|i: int, j: int| 0 <= i < j < s.len() ==> s[i].user != s[j].user
}

/// `limit_index` lands in bounds, on a record with the right key.
pub proof fn lemma_limit_index_props(s: Seq<LimitEntry>, user: u64)
    ensures
        -1 <= limit_index(s, user) < s.len(),
        limit_index(s, user) >= 0 ==> s[limit_index(s, user)].user == user,
    decreases s.len(),
{
    if s.len() > 0 && s.last().user != user {
        lemma_limit_index_props(s.drop_last(), user);
    }
}

/// Two record lists that agree on every key agree on every lookup index.
pub proof fn lemma_limit_index_same_keys(s: Seq<LimitEntry>, t: Seq<LimitEntry>, user: u64)
    requires
        s.len() == t.len(),
        forall|k: int| 0 <= k < s.len() ==> s[k].user == t[k].user,
    ensures
        limit_index(s, user) == limit_index(t, user),
    decreases s.len(),
{
    if s.len() > 0 {
        assert(s.last().user == t.last().user);
        if s.last().user != user {
            assert forall|k: int| 0 <= k < s.drop_last().len() implies s.drop_last()[k].user
                == t.drop_last()[k].user by {
                assert(s.drop_last()[k] == s[k]);
                assert(t.drop_last()[k] == t[k]);
            }
            lemma_limit_index_same_keys(s.drop_last(), t.drop_last(), user);
        }
    }
}

/// Updating one user's record in place leaves every other user's reading
/// untouched.
pub proof fn lemma_limit_after_update(s: Seq<LimitEntry>, i: int, e: LimitEntry, w: u64)
    requires
        0 <= i < s.len(),
        e.user == s[i].user,
        w != e.user,
    ensures
        stored_limit(s.update(i, e), w) == stored_limit(s, w),
{
    let t = s.update(i, e);
    lemma_limit_index_same_keys(s, t, w);
    lemma_limit_index_props(s, w);
    if limit_index(s, w) >= 0 {
        assert(t[limit_index(s, w)] == s[limit_index(s, w)]);
    }
}

/// Appending a fresh user's record leaves every other user's reading
/// untouched.
pub proof fn lemma_limit_after_push(s: Seq<LimitEntry>, e: LimitEntry, w: u64)
    requires
        w != e.user,
    ensures
        stored_limit(s.push(e), w) == stored_limit(s, w),
{
    let t = s.push(e);
    assert(t.drop_last() =~= s);
    lemma_limit_index_props(s, w);
    if limit_index(s, w) >= 0 {
        assert(t[limit_index(s, w)] == s[limit_index(s, w)]);
    }
}

/// If a record carries the key, `limit_index` does not report it absent.
pub proof fn lemma_limit_index_contra(s: Seq<LimitEntry>, user: u64, i: int)
    requires
        0 <= i < s.len(),
        limit_index(s, user) == -1,
    ensures
        s[i].user != user,
    decreases s.len(),
{
    if s.last().user != user && i < s.len() - 1 {
        assert(s.drop_last()[i] == s[i]);
        lemma_limit_index_contra(s.drop_last(), user, i);
    }
}

/// Uniqueness survives an in-place record update that keeps the key.
pub proof fn lemma_limits_unique_after_update(s: Seq<LimitEntry>, i: int, e: LimitEntry)
    requires
        limits_unique(s),
        0 <= i < s.len(),
        e.user == s[i].user,
    ensures
        limits_unique(s.update(i, e)),
{
}

/// Uniqueness survives appending a key not yet present.
pub proof fn lemma_limits_unique_after_push(s: Seq<LimitEntry>, e: LimitEntry)
    requires
        limits_unique(s),
        limit_index(s, e.user) == -1,
    ensures
        limits_unique(s.push(e)),
{
    assert forall|i: int| 0 <= i < s.len() implies s[i].user != e.user by {
        lemma_limit_index_contra(s, e.user, i);
    }
}

/// Deposit/withdrawal volume limiter.
#[derive(Debug)]
pub struct RateLimiter {
    /// Per-user limit records.
    pub per_user_limits: Vec<LimitEntry>,
    /// Per-transaction deposit cap.
    pub max_per_tx: u128,
    /// Per-user daily deposit cap.
    pub max_per_day_per_user: u128,
    /// Deposits accepted in the current global one-hour window.
    pub global_hourly_deposits: u128,
    /// Withdrawals accepted in the current global one-hour window.
    pub global_hourly_withdrawals: u128,
    /// Start of the current global one-hour window.
    pub last_hourly_reset: u64,
    /// Global hourly deposit cap.
    pub max_global_deposits_per_hour: u128,
    /// Global hourly withdrawal cap.
    pub max_global_withdrawals_per_hour: u128,
}

impl RateLimiter {
    /// Well-formedness: unique keys, and every rolling counter within its
    /// cap.
    pub open spec fn wf(self) -> bool {
        &&& limits_unique(self.per_user_limits@)
        &&& self.global_hourly_deposits <= self.max_global_deposits_per_hour
        &&& self.global_hourly_withdrawals <= self.max_global_withdrawals_per_hour
        &&& forall|i: int|
            0 <= i < self.per_user_limits@.len()
                ==> (#[trigger] self.per_user_limits@[i]).limit.current_day_total
                <= self.per_user_limits@[i].limit.max_per_day
    }

    /// Whether the global one-hour window has elapsed at `now`.
    pub open spec fn hourly_elapsed(self, now: u64) -> bool {
        now >= self.last_hourly_reset + 3600
    }

    /// Global deposit counter after any due hourly reset.
    pub open spec fn eff_global_deposits(self, now: u64) -> int {
        if self.hourly_elapsed(now) {
            0
        } else {
            self.global_hourly_deposits as int
        }
    }

    /// Global withdrawal counter after any due hourly reset.
    pub open spec fn eff_global_withdrawals(self, now: u64) -> int {
        if self.hourly_elapsed(now) {
            0
        } else {
            self.global_hourly_withdrawals as int
        }
    }

    /// A fresh limit record for a first-seen user, snapshotting the current
    /// caps.
    pub open spec fn fresh_limit(self, now: u64) -> RateLimit {
        RateLimit {
            max_per_tx: self.max_per_tx,
            max_per_day: self.max_per_day_per_user,
            current_day_total: 0,
            last_reset: now,
        }
    }

    /// `user`'s limit record as it reads at `now`: the stored record (or a
    /// fresh one), with its counter cleared if its 24-hour window elapsed.
    pub open spec fn effective_limit(self, user: u64, now: u64) -> RateLimit {
        let base = match stored_limit(self.per_user_limits@, user) {
            Some(l) => l,
            None => self.fresh_limit(now),
        };
        if now >= base.last_reset + 86400 {
            RateLimit { current_day_total: 0, last_reset: now, ..base }
        } else {
            base
        }
    }

    /// Whether a deposit of `amount` by `user` at `now` exceeds a limit.
    pub open spec fn deposit_exceeds(self, user: u64, amount: u128, now: u64) -> bool {
        ||| amount > self.max_per_tx
        ||| self.effective_limit(user, now).current_day_total + amount > self.effective_limit(
            user,
            now,
        ).max_per_day
        ||| self.eff_global_deposits(now) + amount > self.max_global_deposits_per_hour
    }

    /// A fresh limiter with the default caps.
    pub fn init(now: u64) -> (r: RateLimiter)
        ensures
            r.wf(),
            r.max_per_tx == 10_000_000_000_000u128,
            r.max_per_day_per_user == 50_000_000_000_000u128,
            r.max_global_deposits_per_hour == 1_000_000_000_000_000u128,
            r.max_global_withdrawals_per_hour == 500_000_000_000_000u128,
            r.global_hourly_deposits == 0,
            r.global_hourly_withdrawals == 0,
            r.last_hourly_reset == now,
            r.per_user_limits@.len() == 0,
    {
        RateLimiter {
            per_user_limits: Vec::new(),
            max_per_tx: 10_000_000_000_000,
            max_per_day_per_user: 50_000_000_000_000,
            global_hourly_deposits: 0,
            global_hourly_withdrawals: 0,
            last_hourly_reset: now,
            max_global_deposits_per_hour: 1_000_000_000_000_000,
            max_global_withdrawals_per_hour: 500_000_000_000_000,
        }
    }

    /// Clear the global hourly counters if their window has elapsed.
    fn reset_if_needed(&mut self, now: u64)
        ensures
            final(self).global_hourly_deposits == old(self).eff_global_deposits(now),
            final(self).global_hourly_withdrawals == old(self).eff_global_withdrawals(now),
            final(self).last_hourly_reset == if old(self).hourly_elapsed(now) {
                now
            } else {
                old(self).last_hourly_reset
            },
            final(self).per_user_limits@ == old(self).per_user_limits@,
            final(self).max_per_tx == old(self).max_per_tx,
            final(self).max_per_day_per_user == old(self).max_per_day_per_user,
            final(self).max_global_deposits_per_hour == old(self).max_global_deposits_per_hour,
            final(self).max_global_withdrawals_per_hour == old(self).max_global_withdrawals_per_hour,
            old(self).wf() ==> final(self).wf(),
    {
        if now >= self.last_hourly_reset && now - self.last_hourly_reset >= 3600 {
            self.global_hourly_deposits = 0;
            self.global_hourly_withdrawals = 0;
            self.last_hourly_reset = now;
        }
    }

    /// Check and record a deposit of `amount` by `user` at `now`.
    ///
    /// Fails with `RateLimitExceeded` exactly when the per-transaction cap,
    /// the caller's rolling 24-hour cap, or the global hourly cap would be
    /// exceeded. A due hourly reset is applied (and kept) first, except when
    /// the per-transaction cap already fails; a successful check records the
    /// amount against both the caller's window and the global window.
    pub fn check_deposit_limit(&mut self, user: u64, amount: u128, now: u64) -> (r: Result<
        (),
        VaultError,
    >)
        requires
            old(self).wf(),
        ensures
            final(self).wf(),
            r == if old(self).deposit_exceeds(user, amount, now) {
                Err::<(), VaultError>(VaultError::RateLimitExceeded)
            } else {
                Ok::<(), VaultError>(())
            },
            final(self).max_per_tx == old(self).max_per_tx,
            final(self).max_per_day_per_user == old(self).max_per_day_per_user,
            final(self).max_global_deposits_per_hour == old(self).max_global_deposits_per_hour,
            final(self).max_global_withdrawals_per_hour == old(self).max_global_withdrawals_per_hour,
            amount > old(self).max_per_tx ==> *final(self) == *old(self),
            amount <= old(self).max_per_tx ==> {
                &&& final(self).global_hourly_withdrawals == old(self).eff_global_withdrawals(now)
                &&& final(self).last_hourly_reset == (if old(self).hourly_elapsed(now) {
                    now
                } else {
                    old(self).last_hourly_reset
                })
                &&& (r is Err ==> final(self).per_user_limits@ == old(self).per_user_limits@
                    && final(self).global_hourly_deposits == old(self).eff_global_deposits(now))
            },
            r is Ok ==> {
                &&& final(self).global_hourly_deposits == old(self).eff_global_deposits(now)
                    + amount
                &&& stored_limit(final(self).per_user_limits@, user) == Some(
                    RateLimit {
                        current_day_total: (old(self).effective_limit(user, now).current_day_total
                            + amount) as u128,
                        ..old(self).effective_limit(user, now)
                    },
                )
                &&& forall|w: u64|
                    w != user ==> stored_limit(final(self).per_user_limits@, w) == stored_limit(
                        old(self).per_user_limits@,
                        w,
                    )
            },
    {
        if amount > self.max_per_tx {
            return Err(VaultError::RateLimitExceeded);
        }
        self.reset_if_needed(now);

        let ghost pre = *old(self);
        let mut user_limit: RateLimit = match find_limit(&self.per_user_limits, user) {
            Some(i) => self.per_user_limits[i].limit,
            None => RateLimit {
                max_per_tx: self.max_per_tx,
                max_per_day: self.max_per_day_per_user,
                current_day_total: 0,
                last_reset: now,
            },
        };
        if now >= user_limit.last_reset && now - user_limit.last_reset >= 86400 {
            user_limit.current_day_total = 0;
            user_limit.last_reset = now;
        }
        proof {
            assert(user_limit == pre.effective_limit(user, now));
        }

        if user_limit.current_day_total > user_limit.max_per_day
            || amount > user_limit.max_per_day - user_limit.current_day_total {
            return Err(VaultError::RateLimitExceeded);
        }
        if amount > self.max_global_deposits_per_hour - self.global_hourly_deposits {
            return Err(VaultError::RateLimitExceeded);
        }

        user_limit.current_day_total = user_limit.current_day_total + amount;
        let entry = LimitEntry { user, limit: user_limit };
        let ghost limits0 = self.per_user_limits@;
        match find_limit(&self.per_user_limits, user) {
            Some(i) => {
                proof {
                    lemma_limit_index_props(limits0, user);
                    lemma_limits_unique_after_update(limits0, i as int, entry);
                }
                self.per_user_limits[i] = entry;
                proof {
                    lemma_limit_index_same_keys(limits0, self.per_user_limits@, user);
                    assert forall|w: u64| w != user implies stored_limit(
                        self.per_user_limits@,
                        w,
                    ) == stored_limit(limits0, w) by {
                        lemma_limit_after_update(limits0, limit_index(limits0, user), entry, w);
                    }
                }
            },
            None => {
                proof {
                    lemma_limits_unique_after_push(limits0, entry);
                }
                self.per_user_limits.push(entry);
                proof {
                    assert(self.per_user_limits@.last() == entry);
                    assert forall|w: u64| w != user implies stored_limit(
                        self.per_user_limits@,
                        w,
                    ) == stored_limit(limits0, w) by {
                        lemma_limit_after_push(limits0, entry, w);
                    }
                }
            },
        }
        self.global_hourly_deposits = self.global_hourly_deposits + amount;
        proof {
            let post = self.per_user_limits@;
            let i = limit_index(post, user);
            lemma_limit_index_props(post, user);
            assert(post[i] == entry);
            assert forall|k: int|
                0 <= k < post.len() implies (#[trigger] post[k]).limit.current_day_total
                <= post[k].limit.max_per_day by {
                if post[k] != entry {
                    if k < limits0.len() {
                        assert(post[k] == limits0[k] || post[k] == entry);
                    }
                }
            }
        }
        Ok(())
    }

    /// Check and record a withdrawal of `amount` at `now` against the global
    /// hourly window. Fails with `RateLimitExceeded` exactly when the global
    /// hourly withdrawal cap would be exceeded; a due hourly reset is applied
    /// and kept either way.
    pub fn check_withdrawal_limit(&mut self, amount: u128, now: u64) -> (r: Result<
        (),
        VaultError,
    >)
        requires
            old(self).wf(),
        ensures
            final(self).wf(),
            r == if old(self).eff_global_withdrawals(now) + amount > old(self).max_global_withdrawals_per_hour {
                Err::<(), VaultError>(VaultError::RateLimitExceeded)
            } else {
                Ok::<(), VaultError>(())
            },
            final(self).per_user_limits@ == old(self).per_user_limits@,
            final(self).global_hourly_deposits == old(self).eff_global_deposits(now),
            final(self).last_hourly_reset == (if old(self).hourly_elapsed(now) {
                now
            } else {
                old(self).last_hourly_reset
            }),
            final(self).global_hourly_withdrawals == (if old(self).eff_global_withdrawals(now)
                + amount > old(self).max_global_withdrawals_per_hour {
                old(self).eff_global_withdrawals(now)
            } else {
                old(self).eff_global_withdrawals(now) + amount
            }),
            final(self).max_per_tx == old(self).max_per_tx,
            final(self).max_per_day_per_user == old(self).max_per_day_per_user,
            final(self).max_global_deposits_per_hour == old(self).max_global_deposits_per_hour,
            final(self).max_global_withdrawals_per_hour == old(self).max_global_withdrawals_per_hour,
    {
        self.reset_if_needed(now);
        if amount > self.max_global_withdrawals_per_hour - self.global_hourly_withdrawals {
            return Err(VaultError::RateLimitExceeded);
        }
        self.global_hourly_withdrawals = self.global_hourly_withdrawals + amount;
        Ok(())
    }

    /// Set the per-transaction deposit cap.
    pub fn set_max_per_tx(&mut self, amount: u128)
        ensures
            *final(self) == (RateLimiter { max_per_tx: amount, ..*old(self) }),
    {
        self.max_per_tx = amount;
    }

    /// Set the per-user daily deposit cap.
    pub fn set_max_per_day(&mut self, amount: u128)
        ensures
            *final(self) == (RateLimiter { max_per_day_per_user: amount, ..*old(self) }),
    {
        self.max_per_day_per_user = amount;
    }

    /// How much `user` may still deposit today: the daily cap left in the
    /// current 24-hour window.
    pub fn get_user_remaining_daily_limit(&self, user: u64, now: u64) -> (r: u128)
        ensures
            r == self.effective_limit(user, now).max_per_day - self.effective_limit(
                user,
                now,
            ).current_day_total || (self.effective_limit(user, now).current_day_total
                > self.effective_limit(user, now).max_per_day && r == 0),
    {
        let mut user_limit: RateLimit = match find_limit(&self.per_user_limits, user) {
            Some(i) => self.per_user_limits[i].limit,
            None => RateLimit {
                max_per_tx: self.max_per_tx,
                max_per_day: self.max_per_day_per_user,
                current_day_total: 0,
                last_reset: now,
            },
        };
        if now >= user_limit.last_reset && now - user_limit.last_reset >= 86400 {
            user_limit.current_day_total = 0;
            user_limit.last_reset = now;
        }
        if user_limit.current_day_total >= user_limit.max_per_day {
            0
        } else {
            user_limit.max_per_day - user_limit.current_day_total
        }
    }
}

/// Find the index of `user`'s limit record in `v`, if any.
pub fn find_limit(v: &Vec<LimitEntry>, user: u64) -> (r: Option<usize>)
    ensures
        match r {
            Some(i) => limit_index(v@, user) == i as int && (i as int) < v@.len(),
            None => limit_index(v@, user) == -1,
        },
{
    let mut i: usize = v.len();
    proof {
        assert(v@.subrange(0, i as int) =~= v@);
    }
    while i > 0
        invariant
            i <= v@.len(),
            limit_index(v@, user) == limit_index(v@.subrange(0, i as int), user),
        decreases i,
    {
        i = i - 1;
        if v[i].user == user {
            proof {
                let pre = v@.subrange(0, i + 1 as int);
                assert(pre.last() == v@[i as int]);
            }
            return Some(i);
        }
        proof {
            let pre = v@.subrange(0, i + 1 as int);
            assert(pre.last() == v@[i as int]);
            assert(pre.drop_last() =~= v@.subrange(0, i as int));
        }
    }
    proof {
        assert(v@.subrange(0, 0) =~= Seq::<LimitEntry>::empty());
    }
    None
}

} // verus!
