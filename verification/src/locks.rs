//! The lock overlay: named holds on an account's free balance. Locks with
//! one id replace each other; locks with different ids overlay, so the
//! frozen floor is the maximum of the applicable lock amounts, never their
//! sum. After every change the account's frozen fields are recomputed from
//! the full overlay.

use vstd::prelude::*;

verus! {

use crate::types::{
    AccountData,
    AccountId,
    Balance,
    BalanceLock,
    Reasons,
    spec_combine,
    total_int,
};
use crate::ledger::{
    Ledger,
    accounts_unchanged_except,
    lock_ids_distinct,
};
use crate::store::{
    find_key,
    lemma_key_at,
    lemma_push_fresh,
    lemma_remove_key,
    lemma_update_value,
};

/// Whether a lock restricts fee withdrawals (`fee` true) or other
/// withdrawals (`fee` false).
pub open spec fn lock_counts_for(l: BalanceLock, fee: bool) -> bool {
    if fee {
        l.reasons == Reasons::All || l.reasons == Reasons::Fee
    } else {
        l.reasons == Reasons::All || l.reasons == Reasons::Misc
    }
}

/// The overlay floor of a set of locks: the largest applicable amount,
/// zero when none applies.
pub open spec fn frozen_for(s: Seq<BalanceLock>, fee: bool) -> int
    decreases s.len(),
{
    if s.len() == 0 {
        0
    } else {
        let rest = frozen_for(s.drop_last(), fee);
        if lock_counts_for(s.last(), fee) && s.last().amount > rest {
            s.last().amount as int
        } else {
            rest
        }
    }
}

/// One step of the overlay: the prefix one longer folds in the lock at
/// `i`.
pub proof fn lemma_frozen_for_step(s: Seq<BalanceLock>, fee: bool, i: int)
    requires
        0 <= i < s.len(),
    ensures
        frozen_for(s.take(i + 1), fee) == ({
            let rest = frozen_for(s.take(i), fee);
            if lock_counts_for(s[i], fee) && s[i].amount > rest {
                s[i].amount as int
            } else {
                rest
            }
        }),
{
    assert(s.take(i + 1).drop_last() =~= s.take(i));
    assert(s.take(i + 1).last() == s[i]);
}

/// Some lock carries the id.
pub open spec fn has_lock_id(s: Seq<BalanceLock>, id: u64) -> bool {
    exists|i: int| 0 <= i < s.len() && (#[trigger] s[i]).id == id
}

/// The index of the lock carrying `id`; meaningful when the ids are
/// distinct and the id occurs.
pub open spec fn lock_index(s: Seq<BalanceLock>, id: u64) -> int {
    choose|i: int| 0 <= i < s.len() && (#[trigger] s[i]).id == id
}

/// With distinct ids, a lock carrying `id` at index `i` pins
/// `lock_index`.
pub proof fn lemma_lock_at(s: Seq<BalanceLock>, id: u64, i: int)
    requires
        lock_ids_distinct(s),
        0 <= i < s.len(),
        s[i].id == id,
    ensures
        has_lock_id(s, id),
        lock_index(s, id) == i,
{
    assert(has_lock_id(s, id));
    let j = lock_index(s, id);
    assert(0 <= j < s.len() && s[j].id == id);
    if i != j {
        if i < j {
            assert(s[i].id != s[j].id);
        } else {
            assert(s[j].id != s[i].id);
        }
    }
}

/// What the lock list of an account becomes when a lock is set: the lock
/// with the same id is replaced in place, a fresh id is appended, and a
/// zero amount changes nothing.
pub open spec fn spec_set_lock(
    s: Seq<BalanceLock>,
    id: u64,
    amount: Balance,
    reasons: Reasons,
) -> Seq<BalanceLock> {
    if amount == 0 {
        s
    } else if has_lock_id(s, id) {
        s.update(lock_index(s, id), BalanceLock { id, amount, reasons })
    } else {
        s.push(BalanceLock { id, amount, reasons })
    }
}

/// What the lock list becomes when a lock is extended: merging with the
/// same id takes the larger amount and the union of the reasons.
pub open spec fn spec_extend_lock(
    s: Seq<BalanceLock>,
    id: u64,
    amount: Balance,
    reasons: Reasons,
) -> Seq<BalanceLock> {
    if amount == 0 {
        s
    } else if has_lock_id(s, id) {
        let l = s[lock_index(s, id)];
        s.update(
            lock_index(s, id),
            BalanceLock {
                id,
                amount: if l.amount >= amount {
                    l.amount
                } else {
                    amount
                },
                reasons: spec_combine(l.reasons, reasons),
            },
        )
    } else {
        s.push(BalanceLock { id, amount, reasons })
    }
}

/// What the lock list becomes when a lock is removed.
pub open spec fn spec_remove_lock(s: Seq<BalanceLock>, id: u64) -> Seq<BalanceLock> {
    if has_lock_id(s, id) {
        s.remove(lock_index(s, id))
    } else {
        s
    }
}

/// `a` with its frozen floors replaced and the balances kept.
pub open spec fn acct_with_frozen(
    a: AccountData,
    misc_frozen: Balance,
    fee_frozen: Balance,
) -> AccountData {
    AccountData { misc_frozen, fee_frozen, ..a }
}

/// Every lock list but the one of `who` reads the same in both ledgers.
pub open spec fn locks_unchanged_except(post: Ledger, pre: Ledger, who: AccountId) -> bool {
    forall|a: AccountId|
        a != who ==> post.has_locks(a) == pre.has_locks(a) && #[trigger] post.locks_of(a)
            == pre.locks_of(a)
}

/// The state every lock operation leaves behind: the lock list of `who`
/// becomes `nl`, the account's frozen floors are recomputed from the full
/// overlay, and nothing else moves. An absent account stays absent unless
/// the existential deposit is zero.
pub open spec fn spec_locks_post(pre: Ledger, post: Ledger, who: AccountId, nl: Seq<
    BalanceLock,
>) -> bool {
    let na = acct_with_frozen(
        pre.account_of(who),
        frozen_for(nl, false) as Balance,
        frozen_for(nl, true) as Balance,
    );
    &&& (nl.len() > 0 ==> post.has_locks(who) && post.locks_of(who) == nl)
    &&& (nl.len() == 0 ==> !post.has_locks(who))
    &&& locks_unchanged_except(post, pre, who)
    &&& (if total_int(na) >= pre.existential_deposit {
        post.has_account(who) && post.account_of(who) == na
    } else {
        !post.has_account(who)
    })
    &&& accounts_unchanged_except(post, pre, who)
    &&& post.sum_of_totals() == pre.sum_of_totals()
    &&& post.total_issuance == pre.total_issuance
    &&& post.existential_deposit == pre.existential_deposit
    &&& post.spreads == pre.spreads
    &&& post.commission == pre.commission
}

/// Looks a lock id up in a lock list.
fn find_lock(v: &Vec<BalanceLock>, id: u64) -> (r: Option<usize>)
    ensures
        match r {
            Some(i) => i < v@.len() && v@[i as int].id == id,
            None => !has_lock_id(v@, id),
        },
{
    let mut i: usize = 0;
    while i < v.len()
        invariant
            i <= v@.len(),
            forall|j: int| 0 <= j < i ==> (#[trigger] v@[j]).id != id,
        decreases v@.len() - i,
    {
        if v[i].id == id {
            return Some(i);
        }
        i = i + 1;
    }
    None
}

impl Ledger {
    /// An owned copy of the lock list of `who`, empty if none is stored.
    pub fn locks(&self, who: AccountId) -> (r: Vec<BalanceLock>)
        requires
            self.wf(),
        ensures
            r@ == self.locks_of(who),
    {
        self.locks_vec(who)
    }

    /// An owned copy of the lock list of `who`.
    fn locks_vec(&self, who: AccountId) -> (r: Vec<BalanceLock>)
        requires
            self.wf(),
        ensures
            r@ == self.locks_of(who),
            lock_ids_distinct(r@),
    {
        match find_key(&self.locks, who) {
            Some(i) => {
                proof {
                    lemma_key_at(self.locks@, who, i as int);
                }
                self.locks[i].1.clone()
            },
            None => Vec::new(),
        }
    }

    /// Recomputes the account's frozen floors from `locks` and stores the
    /// list, dropping the map entry when the list is empty.
    fn update_locks(&mut self, who: AccountId, locks: Vec<BalanceLock>)
        requires
            old(self).wf(),
            lock_ids_distinct(locks@),
        ensures
            final(self).wf(),
            spec_locks_post(*old(self), *final(self), who, locks@),
    {
        let ghost pre = *self;
        let mut misc_max: Balance = 0;
        let mut fee_max: Balance = 0;
        let mut i: usize = 0;
        proof {
            assert(locks@.take(0) =~= Seq::<BalanceLock>::empty());
        }
        while i < locks.len()
            invariant
                i <= locks@.len(),
                misc_max as int == frozen_for(locks@.take(i as int), false),
                fee_max as int == frozen_for(locks@.take(i as int), true),
            decreases locks@.len() - i,
        {
            proof {
                lemma_frozen_for_step(locks@, false, i as int);
                lemma_frozen_for_step(locks@, true, i as int);
            }
            let l = locks[i];
            if (l.reasons == Reasons::All || l.reasons == Reasons::Misc) && l.amount > misc_max {
                misc_max = l.amount;
            }
            if (l.reasons == Reasons::All || l.reasons == Reasons::Fee) && l.amount > fee_max {
                fee_max = l.amount;
            }
            i = i + 1;
        }
        proof {
            assert(locks@.take(locks@.len() as int) =~= locks@);
        }
        let a = self.account(who);
        let na = AccountData { misc_frozen: misc_max, fee_frozen: fee_max, ..a };
        proof {
            if self.has_account(who) {
                self.lemma_account_wf(who);
            }
        }
        let _outcome = self.mutate_account(who, na);
        let is_empty = locks.len() == 0;
        match find_key(&self.locks, who) {
            Some(j) => {
                proof {
                    lemma_key_at(pre.locks@, who, j as int);
                }
                if is_empty {
                    proof {
                        lemma_remove_key(pre.locks@, j as int);
                    }
                    let _ = self.locks.remove(j);
                } else {
                    proof {
                        lemma_update_value(pre.locks@, j as int, locks);
                        assert(pre.locks@.update(j as int, (pre.locks@[j as int].0, locks)) =~= pre
                            .locks@.update(j as int, (who, locks)));
                    }
                    self.locks[j] = (who, locks);
                }
            },
            None => {
                if !is_empty {
                    proof {
                        lemma_push_fresh(pre.locks@, who, locks);
                    }
                    self.locks.push((who, locks));
                }
            },
        }
    }

    /// Sets a lock: replaces any lock with the same id in place, keeps
    /// every other lock, and recomputes the frozen floors from the whole
    /// overlay. A zero amount is a no-op.
    pub fn set_lock(&mut self, id: u64, who: AccountId, amount: Balance, reasons: Reasons)
        requires
            old(self).wf(),
        ensures
            final(self).wf(),
            amount == 0 ==> *final(self) == *old(self),
            amount > 0 ==> spec_locks_post(
                *old(self),
                *final(self),
                who,
                spec_set_lock(old(self).locks_of(who), id, amount, reasons),
            ),
    {
        if amount == 0 {
            return ;
        }
        let mut locks = self.locks_vec(who);
        let new_lock = BalanceLock { id, amount, reasons };
        match find_lock(&locks, id) {
            Some(i) => {
                proof {
                    lemma_lock_at(locks@, id, i as int);
                    lemma_lock_update_distinct(locks@, i as int, new_lock);
                }
                locks[i] = new_lock;
            },
            None => {
                proof {
                    lemma_lock_push_distinct(locks@, new_lock);
                }
                locks.push(new_lock);
            },
        }
        self.update_locks(who, locks);
    }

    /// Extends a lock: merging with an existing same-id lock takes the
    /// larger amount and the union of the reasons; a fresh id is appended.
    /// A zero amount is a no-op.
    pub fn extend_lock(&mut self, id: u64, who: AccountId, amount: Balance, reasons: Reasons)
        requires
            old(self).wf(),
        ensures
            final(self).wf(),
            amount == 0 ==> *final(self) == *old(self),
            amount > 0 ==> spec_locks_post(
                *old(self),
                *final(self),
                who,
                spec_extend_lock(old(self).locks_of(who), id, amount, reasons),
            ),
    {
        if amount == 0 {
            return ;
        }
        let mut locks = self.locks_vec(who);
        match find_lock(&locks, id) {
            Some(i) => {
                let l = locks[i];
                let merged = BalanceLock {
                    id,
                    amount: if l.amount >= amount {
                        l.amount
                    } else {
                        amount
                    },
                    reasons: l.reasons.combine(reasons),
                };
                proof {
                    lemma_lock_at(locks@, id, i as int);
                    lemma_lock_update_distinct(locks@, i as int, merged);
                }
                locks[i] = merged;
            },
            None => {
                proof {
                    lemma_lock_push_distinct(locks@, BalanceLock { id, amount, reasons });
                }
                locks.push(BalanceLock { id, amount, reasons });
            },
        }
        self.update_locks(who, locks);
    }

    /// Removes the lock with the given id, if any, and recomputes the
    /// frozen floors from what remains.
    pub fn remove_lock(&mut self, id: u64, who: AccountId)
        requires
            old(self).wf(),
        ensures
            final(self).wf(),
            spec_locks_post(
                *old(self),
                *final(self),
                who,
                spec_remove_lock(old(self).locks_of(who), id),
            ),
    {
        let mut locks = self.locks_vec(who);
        match find_lock(&locks, id) {
            Some(i) => {
                proof {
                    lemma_lock_at(locks@, id, i as int);
                    lemma_lock_remove_distinct(locks@, i as int);
                }
                let _ = locks.remove(i);
            },
            None => {},
        }
        self.update_locks(who, locks);
    }
}

/// Updating a lock in place, keeping its id, preserves the distinctness
/// of the ids.
pub proof fn lemma_lock_update_distinct(s: Seq<BalanceLock>, i: int, l: BalanceLock)
    requires
        lock_ids_distinct(s),
        0 <= i < s.len(),
        l.id == s[i].id,
    ensures
        lock_ids_distinct(s.update(i, l)),
{
}

/// Appending a lock with a fresh id preserves the distinctness of the
/// ids.
pub proof fn lemma_lock_push_distinct(s: Seq<BalanceLock>, l: BalanceLock)
    requires
        lock_ids_distinct(s),
        !has_lock_id(s, l.id),
    ensures
        lock_ids_distinct(s.push(l)),
{
    let t = s.push(l);
    assert forall|i: int, j: int| 0 <= i < j < t.len() implies (#[trigger] t[i]).id != (
    #[trigger] t[j]).id by {
        if j == s.len() {
            assert(t[i] == s[i]);
            if t[i].id == l.id {
                assert(has_lock_id(s, l.id));
            }
        } else {
            assert(t[i] == s[i] && t[j] == s[j]);
        }
    }
}

/// Removing a lock preserves the distinctness of the ids.
pub proof fn lemma_lock_remove_distinct(s: Seq<BalanceLock>, i: int)
    requires
        lock_ids_distinct(s),
        0 <= i < s.len(),
    ensures
        lock_ids_distinct(s.remove(i)),
{
    let t = s.remove(i);
    assert forall|a: int, b: int| 0 <= a < b < t.len() implies (#[trigger] t[a]).id != (
    #[trigger] t[b]).id by {
        let a0 = if a < i {
            a
        } else {
            a + 1
        };
        let b0 = if b < i {
            b
        } else {
            b + 1
        };
        assert(t[a] == s[a0] && t[b] == s[b0]);
    }
}

/// Setting the same lock id twice leaves exactly the state of the second
/// call: one lock per id, with the first write completely overlaid.
pub proof fn lemma_set_lock_idempotent(
    s: Seq<BalanceLock>,
    id: u64,
    a1: Balance,
    r1: Reasons,
    a2: Balance,
    r2: Reasons,
)
    requires
        lock_ids_distinct(s),
        a1 > 0,
        a2 > 0,
    ensures
        spec_set_lock(spec_set_lock(s, id, a1, r1), id, a2, r2) == spec_set_lock(s, id, a2, r2),
{
    let l1 = BalanceLock { id, amount: a1, reasons: r1 };
    let l2 = BalanceLock { id, amount: a2, reasons: r2 };
    if has_lock_id(s, id) {
        let i = lock_index(s, id);
        assert(0 <= i < s.len() && s[i].id == id);
        let t = s.update(i, l1);
        lemma_lock_update_distinct(s, i, l1);
        lemma_lock_at(t, id, i);
        assert(spec_set_lock(t, id, a2, r2) == t.update(i, l2));
        assert(t.update(i, l2) =~= s.update(i, l2));
    } else {
        let t = s.push(l1);
        lemma_lock_push_distinct(s, l1);
        lemma_lock_at(t, id, s.len() as int);
        assert(spec_set_lock(t, id, a2, r2) == t.update(s.len() as int, l2));
        assert(t.update(s.len() as int, l2) =~= s.push(l2));
    }
}

} // verus!
