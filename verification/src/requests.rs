//! Time-locked withdrawal requests.
//!
//! A request snapshots its payout value at request time and locks the shares
//! out of the owner's spendable balance, while `totalShares` keeps counting
//! them until completion. `locked_shares` is that transient gap.

use vstd::prelude::*;

verus! {

/// A time-locked withdrawal: shares locked (not yet burned) against a payout
/// value fixed at request time.
#[derive(Debug, Clone, Copy, PartialEq, Eq, Structural)]
pub struct WithdrawalRequest {
    /// Owner of the request.
    pub user: u64,
    /// Shares locked out of the owner's spendable balance.
    pub shares: u128,
    /// Base-asset value snapshotted at request time; paid as-is (minus the
    /// performance fee) at completion, regardless of later price moves.
    pub assets_value: u128,
    /// Earliest timestamp at which the request may be completed.
    pub unlock_time: u64,
    /// Whether the request has been completed.
    pub completed: bool,
}

/// Shares a request still holds locked: its share count while uncompleted.
pub open spec fn locked_of(r: WithdrawalRequest) -> int {
    if r.completed {
        0
    } else {
        r.shares as int
    }
}

/// Total shares locked by uncompleted requests.
pub open spec fn locked_shares(s: Seq<WithdrawalRequest>) -> int
    decreases s.len(),
{
    if s.len() == 0 {
        0
    } else {
        locked_shares(s.drop_last()) + locked_of(s.last())
    }
}

/// The locked total is never negative.
pub proof fn lemma_locked_nonneg(s: Seq<WithdrawalRequest>)
    ensures
        locked_shares(s) >= 0,
    decreases s.len(),
{
    if s.len() > 0 {
        lemma_locked_nonneg(s.drop_last());
    }
}

/// Appending a request adds its locked shares to the total.
pub proof fn lemma_locked_push(s: Seq<WithdrawalRequest>, r: WithdrawalRequest)
    ensures
        locked_shares(s.push(r)) == locked_shares(s) + locked_of(r),
{
    assert(s.push(r).drop_last() =~= s);
}

/// Replacing the request at `i` moves the total by the change in its locked
/// shares.
pub proof fn lemma_locked_update(s: Seq<WithdrawalRequest>, i: int, r: WithdrawalRequest)
    requires
        0 <= i < s.len(),
    ensures
        locked_shares(s.update(i, r)) == locked_shares(s) - locked_of(s[i]) + locked_of(r),
    decreases s.len(),
{
    if i == s.len() - 1 {
        assert(s.update(i, r).drop_last() =~= s.drop_last());
    } else {
        assert(s.update(i, r).drop_last() =~= s.drop_last().update(i, r));
        lemma_locked_update(s.drop_last(), i, r);
    }
}

/// Every single uncompleted request's shares are bounded by the locked total.
pub proof fn lemma_request_le_locked(s: Seq<WithdrawalRequest>, i: int)
    requires
        0 <= i < s.len(),
    ensures
        locked_of(s[i]) <= locked_shares(s),
    decreases s.len(),
{
    lemma_locked_nonneg(s.drop_last());
    if i < s.len() - 1 {
        assert(s.drop_last()[i] == s[i]);
        lemma_request_le_locked(s.drop_last(), i);
    }
}

} // verus!
