//! The ledger service object: account store, lock overlay, referral forest,
//! commission ledger and the global issuance counter, with the primitive
//! that every balance mutation goes through.

use vstd::prelude::*;

verus! {

use crate::types::{
    AccountData,
    AccountId,
    Balance,
    BalanceLock,
    Reasons,
    Spread,
    sat_add,
    sat_sub,
    spec_usable,
    spec_zero_account,
    total_int,
};
use crate::store::{
    find_key,
    has_key,
    keys_distinct,
    lemma_key_at,
    lemma_push_fresh,
    lemma_remove_key,
    lemma_update_value,
    value_of,
};
use crate::imbalance::{NegativeImbalance, PositiveImbalance, SignedImbalance};

/// The whole state of the ledger.
pub struct Ledger {
    /// The minimum total balance an account record needs to exist.
    pub existential_deposit: Balance,
    /// The total units issued; kept equal to the sum of all account totals
    /// plus the outstanding imbalance.
    pub total_issuance: Balance,
    /// The balance record of every existing account.
    pub accounts: Vec<(AccountId, AccountData)>,
    /// The named locks of each account that has any; an account with no
    /// locks has no entry.
    pub locks: Vec<(AccountId, Vec<BalanceLock>)>,
    /// The referral edge of every account that has been linked.
    pub spreads: Vec<(AccountId, Spread)>,
    /// Commission owed, keyed by the `(referrer, referee)` pair.
    pub commission: Vec<((AccountId, AccountId), u128)>,
}

/// The sum of `free + reserved` over a sequence of account records.
pub open spec fn sum_totals(s: Seq<(AccountId, AccountData)>) -> int
    decreases s.len(),
{
    if s.len() == 0 {
        0
    } else {
        sum_totals(s.drop_last()) + total_int(s.last().1)
    }
}

/// Replacing the record at `i` shifts the sum by the difference of the
/// totals.
pub proof fn lemma_sum_update(s: Seq<(AccountId, AccountData)>, i: int, a: AccountData)
    requires
        0 <= i < s.len(),
    ensures
        sum_totals(s.update(i, (s[i].0, a))) == sum_totals(s) - total_int(s[i].1) + total_int(a),
    decreases s.len(),
{
    let t = s.update(i, (s[i].0, a));
    if i == s.len() - 1 {
        assert(t.drop_last() =~= s.drop_last());
        assert(t.last() == (s[i].0, a));
    } else {
        assert(t.last() == s.last());
        assert(t.drop_last() =~= s.drop_last().update(i, (s.drop_last()[i].0, a)));
        lemma_sum_update(s.drop_last(), i, a);
    }
}

/// Removing the record at `i` lowers the sum by that record's total.
pub proof fn lemma_sum_remove(s: Seq<(AccountId, AccountData)>, i: int)
    requires
        0 <= i < s.len(),
    ensures
        sum_totals(s.remove(i)) == sum_totals(s) - total_int(s[i].1),
    decreases s.len(),
{
    let t = s.remove(i);
    if i == s.len() - 1 {
        assert(t =~= s.drop_last());
    } else {
        assert(t.last() == s.last());
        assert(t.drop_last() =~= s.drop_last().remove(i));
        lemma_sum_remove(s.drop_last(), i);
    }
}

/// Appending a record raises the sum by that record's total.
pub proof fn lemma_sum_push(s: Seq<(AccountId, AccountData)>, x: (AccountId, AccountData))
    ensures
        sum_totals(s.push(x)) == sum_totals(s) + total_int(x.1),
{
    assert(s.push(x).drop_last() =~= s);
    assert(s.push(x).last() == x);
}

/// The ids of the locks in a sequence are pairwise distinct.
pub open spec fn lock_ids_distinct(s: Seq<BalanceLock>) -> bool {
    forall|i: int, j: int| 0 <= i < j < s.len() ==> (#[trigger] s[i]).id != (#[trigger] s[j]).id
}

/// What the mutation primitive reports besides writing the store.
pub struct MutationOutcome {
    /// The initial free balance, when the mutation touched an account that
    /// did not exist before.
    pub endowed: Option<Balance>,
    /// The swept remainder, when the resulting total was positive but below
    /// the existential deposit: the record was dropped and this negative
    /// imbalance folded into the total issuance.
    pub dust: Option<Balance>,
}

/// The dust a record would leave behind: its total when that is positive
/// but below the existential deposit, zero otherwise.
pub open spec fn spec_dust(a: AccountData, existential_deposit: Balance) -> int {
    if 0 < total_int(a) < existential_deposit {
        total_int(a)
    } else {
        0
    }
}

impl Ledger {
    /// The ledger's internal invariant: distinct keys in every map, no dust
    /// account stored, and no empty or id-duplicating lock list kept.
    pub open spec fn wf(self) -> bool {
        &&& keys_distinct(self.accounts@)
        &&& keys_distinct(self.locks@)
        &&& keys_distinct(self.spreads@)
        &&& keys_distinct(self.commission@)
        &&& forall|i: int|
            0 <= i < self.accounts@.len() ==> total_int(#[trigger] self.accounts@[i].1)
                >= self.existential_deposit
        &&& forall|i: int|
            0 <= i < self.locks@.len() ==> (#[trigger] self.locks@[i].1)@.len() > 0
                && lock_ids_distinct(self.locks@[i].1@)
    }

    /// The account record exists.
    pub open spec fn has_account(self, who: AccountId) -> bool {
        has_key(self.accounts@, who)
    }

    /// The stored record of `who`, or the all-zero record if none exists.
    pub open spec fn account_of(self, who: AccountId) -> AccountData {
        if has_key(self.accounts@, who) {
            value_of(self.accounts@, who)
        } else {
            spec_zero_account()
        }
    }

    /// The sum of `free + reserved` over all existing accounts.
    pub open spec fn sum_of_totals(self) -> int {
        sum_totals(self.accounts@)
    }

    /// The account has at least one lock.
    pub open spec fn has_locks(self, who: AccountId) -> bool {
        has_key(self.locks@, who)
    }

    /// The locks of `who`, empty if none are stored.
    pub open spec fn locks_of(self, who: AccountId) -> Seq<BalanceLock> {
        if has_key(self.locks@, who) {
            value_of(self.locks@, who)@
        } else {
            Seq::empty()
        }
    }

    /// The account has a referral edge.
    pub open spec fn has_spread(self, who: AccountId) -> bool {
        has_key(self.spreads@, who)
    }

    /// The referral edge of `who`; meaningful when one exists.
    pub open spec fn spread_of(self, who: AccountId) -> Spread
        recommends
            self.has_spread(who),
    {
        value_of(self.spreads@, who)
    }

    /// The commission entry exists for the `(referrer, referee)` pair.
    pub open spec fn has_commission(self, referrer: AccountId, referee: AccountId) -> bool {
        has_key(self.commission@, (referrer, referee))
    }

    /// The commission owed to `referrer` for `referee`, zero if no entry
    /// exists.
    pub open spec fn commission_of(self, referrer: AccountId, referee: AccountId) -> u128 {
        if has_key(self.commission@, (referrer, referee)) {
            value_of(self.commission@, (referrer, referee))
        } else {
            0
        }
    }

    /// A fresh ledger with no accounts and nothing issued.
    pub fn new(existential_deposit: Balance) -> (r: Ledger)
        ensures
            r.wf(),
            r.existential_deposit == existential_deposit,
            r.total_issuance == 0,
            r.accounts@.len() == 0,
            r.locks@.len() == 0,
            r.spreads@.len() == 0,
            r.commission@.len() == 0,
    {
        Ledger {
            existential_deposit,
            total_issuance: 0,
            accounts: Vec::new(),
            locks: Vec::new(),
            spreads: Vec::new(),
            commission: Vec::new(),
        }
    }

    /// The minimum total balance needed to keep an account open.
    pub fn minimum_balance(&self) -> (r: Balance)
        ensures
            r == self.existential_deposit,
    {
        self.existential_deposit
    }

    /// The total units issued in the system.
    pub fn total_issuance(&self) -> (r: Balance)
        ensures
            r == self.total_issuance,
    {
        self.total_issuance
    }

    /// Both parts of the balance of `who`, the all-zero record if the
    /// account does not exist.
    pub fn account(&self, who: AccountId) -> (r: AccountData)
        requires
            self.wf(),
        ensures
            r == self.account_of(who),
    {
        match find_key(&self.accounts, who) {
            Some(i) => {
                proof {
                    lemma_key_at(self.accounts@, who, i as int);
                }
                self.accounts[i].1
            },
            None => AccountData::zero(),
        }
    }

    /// The free part of the balance of `who`.
    pub fn free_balance(&self, who: AccountId) -> (r: Balance)
        requires
            self.wf(),
        ensures
            r == self.account_of(who).free,
    {
        self.account(who).free
    }

    /// The reserved part of the balance of `who`.
    pub fn reserved_balance(&self, who: AccountId) -> (r: Balance)
        requires
            self.wf(),
        ensures
            r == self.account_of(who).reserved,
    {
        self.account(who).reserved
    }

    /// What `who` can spend on anything but transaction fees.
    pub fn usable_balance(&self, who: AccountId) -> (r: Balance)
        requires
            self.wf(),
        ensures
            r == spec_usable(self.account_of(who), Reasons::Misc),
    {
        self.account(who).usable(Reasons::Misc)
    }

    /// What `who` can spend on transaction fees.
    pub fn usable_balance_for_fees(&self, who: AccountId) -> (r: Balance)
        requires
            self.wf(),
        ensures
            r == spec_usable(self.account_of(who), Reasons::Fee),
    {
        self.account(who).usable(Reasons::Fee)
    }

    /// The whole balance of `who`, reserved part included.
    pub fn total_balance(&self, who: AccountId) -> (r: Balance)
        requires
            self.wf(),
        ensures
            r == sat_add(self.account_of(who).free as int, self.account_of(who).reserved as int),
    {
        self.account(who).total()
    }

    /// Ledgers with the same account store read every account alike.
    pub proof fn lemma_accounts_congruent(self, other: Ledger)
        requires
            self.accounts == other.accounts,
        ensures
            forall|w: AccountId| #![trigger self.account_of(w)] #![trigger self.has_account(w)]
                self.account_of(w) == other.account_of(w) && self.has_account(w)
                    == other.has_account(w),
            self.sum_of_totals() == other.sum_of_totals(),
    {
    }

    /// Ledgers with the same lock store read every lock list alike.
    pub proof fn lemma_locks_congruent(self, other: Ledger)
        requires
            self.locks == other.locks,
        ensures
            forall|w: AccountId| #![trigger self.locks_of(w)] #![trigger self.has_locks(w)]
                self.locks_of(w) == other.locks_of(w) && self.has_locks(w) == other.has_locks(w),
    {
    }

    /// Ledgers with the same referral store read every edge alike.
    pub proof fn lemma_spreads_congruent(self, other: Ledger)
        requires
            self.spreads == other.spreads,
        ensures
            forall|w: AccountId| #![trigger self.spread_of(w)] #![trigger self.has_spread(w)]
                self.spread_of(w) == other.spread_of(w) && self.has_spread(w) == other.has_spread(
                    w,
                ),
    {
    }

    /// Ledgers with the same commission store read every entry alike.
    pub proof fn lemma_commission_congruent(self, other: Ledger)
        requires
            self.commission == other.commission,
        ensures
            forall|x: AccountId, y: AccountId|
                #![trigger self.commission_of(x, y)]
                #![trigger self.has_commission(x, y)]
                self.commission_of(x, y) == other.commission_of(x, y) && self.has_commission(x, y)
                    == other.has_commission(x, y),
    {
    }

    /// A stored account never holds a dust total.
    pub proof fn lemma_account_wf(self, who: AccountId)
        requires
            self.wf(),
            self.has_account(who),
        ensures
            total_int(self.account_of(who)) >= self.existential_deposit,
    {
        let i = choose|i: int| 0 <= i < self.accounts@.len() && (#[trigger] self.accounts@[i]).0
            == who;
        lemma_key_at(self.accounts@, who, i);
        assert(total_int(self.accounts@[i].1) >= self.existential_deposit);
    }

    /// The account has at least one lock stored.
    pub fn any_locks(&self, who: AccountId) -> (r: bool)
        ensures
            r == self.has_locks(who),
    {
        find_key(&self.locks, who).is_some()
    }

    /// The account does not exist.
    pub fn is_dead_account(&self, who: AccountId) -> (r: bool)
        ensures
            r == !self.has_account(who),
    {
        find_key(&self.accounts, who).is_none()
    }
}

/// The two ledgers agree on everything but the issuance counter.
pub open spec fn same_but_issuance(a: Ledger, b: Ledger) -> bool {
    &&& a.existential_deposit == b.existential_deposit
    &&& a.accounts == b.accounts
    &&& a.locks == b.locks
    &&& a.spreads == b.spreads
    &&& a.commission == b.commission
}

/// The two ledgers agree on the existential deposit, the locks, the
/// referral edges and the commission entries; only the accounts and the
/// issuance may differ.
pub open spec fn aux_unchanged(a: Ledger, b: Ledger) -> bool {
    &&& a.existential_deposit == b.existential_deposit
    &&& a.locks == b.locks
    &&& a.spreads == b.spreads
    &&& a.commission == b.commission
}

/// Every account but `who` reads the same in both ledgers.
pub open spec fn accounts_unchanged_except(post: Ledger, pre: Ledger, who: AccountId) -> bool {
    forall|a: AccountId|
        a != who ==> post.has_account(a) == pre.has_account(a) && post.account_of(a)
            == pre.account_of(a)
}

/// Every account but `x` and `y` reads the same in both ledgers.
pub open spec fn accounts_unchanged_except2(
    post: Ledger,
    pre: Ledger,
    x: AccountId,
    y: AccountId,
) -> bool {
    forall|a: AccountId|
        a != x && a != y ==> post.has_account(a) == pre.has_account(a) && post.account_of(a)
            == pre.account_of(a)
}

impl Ledger {
    /// Writes a new record for `who`, enforcing the existential-deposit
    /// law: a record whose total is positive but below the deposit is not
    /// kept; its total is swept as dust and folded into the issuance, and
    /// a record whose total is zero is silently dropped. This is the sole
    /// gateway every balance mutation goes through. It does not maintain
    /// the issuance for the mutation itself; that is the caller's duty,
    /// discharged through the imbalance tokens of the calling operation.
    pub fn mutate_account(&mut self, who: AccountId, new: AccountData) -> (r: MutationOutcome)
        requires
            old(self).wf(),
        ensures
            final(self).wf(),
            final(self).existential_deposit == old(self).existential_deposit,
            final(self).locks == old(self).locks,
            final(self).spreads == old(self).spreads,
            final(self).commission == old(self).commission,
            r.endowed == (if !old(self).has_account(who) {
                Some(new.free)
            } else {
                None::<Balance>
            }),
            total_int(new) >= old(self).existential_deposit ==> {
                &&& final(self).has_account(who)
                &&& final(self).account_of(who) == new
                &&& r.dust is None
                &&& final(self).total_issuance == old(self).total_issuance
            },
            total_int(new) < old(self).existential_deposit ==> {
                &&& !final(self).has_account(who)
                &&& final(self).total_issuance as int == sat_sub(
                    old(self).total_issuance as int,
                    spec_dust(new, old(self).existential_deposit),
                )
                &&& (r.dust matches Some(d) ==> d == total_int(new))
                &&& (r.dust is Some <==> total_int(new) > 0)
            },
            forall|a: AccountId|
                a != who ==> final(self).has_account(a) == old(self).has_account(a)
                    && final(self).account_of(a) == old(self).account_of(a),
            final(self).sum_of_totals() == old(self).sum_of_totals() - (if old(
                self,
            ).has_account(who) {
                total_int(old(self).account_of(who))
            } else {
                0
            }) + (if total_int(new) >= old(self).existential_deposit {
                total_int(new)
            } else {
                0
            }),
    {
        let ghost pre = *self;
        let idx = find_key(&self.accounts, who);
        let endowed: Option<Balance> = match idx {
            Some(_) => None,
            None => Some(new.free),
        };
        let total = new.total();
        let ed = self.existential_deposit;
        proof {
            if idx is Some {
                lemma_key_at(pre.accounts@, who, idx->0 as int);
            }
        }
        if total >= ed {
            assert(total_int(new) >= ed);
            match idx {
                Some(i) => {
                    proof {
                        lemma_update_value(pre.accounts@, i as int, new);
                        lemma_sum_update(pre.accounts@, i as int, new);
                        assert(pre.accounts@.update(i as int, (pre.accounts@[i as int].0, new))
                            =~= pre.accounts@.update(i as int, (who, new)));
                    }
                    self.accounts[i] = (who, new);
                },
                None => {
                    proof {
                        lemma_push_fresh(pre.accounts@, who, new);
                        lemma_sum_push(pre.accounts@, (who, new));
                    }
                    self.accounts.push((who, new));
                },
            }
            MutationOutcome { endowed, dust: None }
        } else {
            assert(total == total_int(new));
            match idx {
                Some(i) => {
                    proof {
                        lemma_remove_key(pre.accounts@, i as int);
                        lemma_sum_remove(pre.accounts@, i as int);
                    }
                    let _ = self.accounts.remove(i);
                },
                None => {},
            }
            if total > 0 {
                let issuance = self.total_issuance;
                self.total_issuance = if issuance >= total {
                    issuance - total
                } else {
                    0
                };
                MutationOutcome { endowed, dust: Some(total) }
            } else {
                MutationOutcome { endowed, dust: None }
            }
        }
    }

    /// The consumption point for a positive token: folds it into the total
    /// issuance, clamped to the `Balance` domain.
    pub fn consume_positive(&mut self, token: PositiveImbalance)
        ensures
            same_but_issuance(*final(self), *old(self)),
            final(self).total_issuance as int == sat_add(
                old(self).total_issuance as int,
                token.amount as int,
            ),
    {
        let amount = token.peek();
        self.total_issuance = if self.total_issuance <= Balance::MAX - amount {
            self.total_issuance + amount
        } else {
            Balance::MAX
        };
    }

    /// The consumption point for a negative token: folds it into the total
    /// issuance, clamped to zero.
    pub fn consume_negative(&mut self, token: NegativeImbalance)
        ensures
            same_but_issuance(*final(self), *old(self)),
            final(self).total_issuance as int == sat_sub(
                old(self).total_issuance as int,
                token.amount as int,
            ),
    {
        let amount = token.peek();
        self.total_issuance = if self.total_issuance >= amount {
            self.total_issuance - amount
        } else {
            0
        };
    }

    /// The consumption point for a token of either sign.
    pub fn consume_signed(&mut self, token: SignedImbalance)
        ensures
            same_but_issuance(*final(self), *old(self)),
            token matches SignedImbalance::Positive(p) ==> final(self).total_issuance as int
                == sat_add(old(self).total_issuance as int, p.amount as int),
            token matches SignedImbalance::Negative(n) ==> final(self).total_issuance as int
                == sat_sub(old(self).total_issuance as int, n.amount as int),
    {
        match token {
            SignedImbalance::Positive(p) => self.consume_positive(p),
            SignedImbalance::Negative(n) => self.consume_negative(n),
        }
    }

    /// Removes the record of a killed account outright; whatever balance it
    /// still held is reported as dust and folded into the issuance.
    pub fn on_killed_account(&mut self, who: AccountId) -> (dust: Option<Balance>)
        requires
            old(self).wf(),
        ensures
            final(self).wf(),
            final(self).existential_deposit == old(self).existential_deposit,
            final(self).locks == old(self).locks,
            final(self).spreads == old(self).spreads,
            final(self).commission == old(self).commission,
            !final(self).has_account(who),
            forall|a: AccountId|
                a != who ==> final(self).has_account(a) == old(self).has_account(a)
                    && final(self).account_of(a) == old(self).account_of(a),
            final(self).sum_of_totals() == old(self).sum_of_totals() - (if old(
                self,
            ).has_account(who) {
                total_int(old(self).account_of(who))
            } else {
                0
            }),
            final(self).total_issuance as int == sat_sub(
                old(self).total_issuance as int,
                sat_add(
                    old(self).account_of(who).free as int,
                    old(self).account_of(who).reserved as int,
                ),
            ),
            dust == (if old(self).has_account(who) && total_int(old(self).account_of(who)) > 0 {
                Some(
                    (sat_add(
                        old(self).account_of(who).free as int,
                        old(self).account_of(who).reserved as int,
                    )) as Balance,
                )
            } else {
                None::<Balance>
            }),
    {
        let ghost pre = *self;
        match find_key(&self.accounts, who) {
            Some(i) => {
                proof {
                    lemma_key_at(pre.accounts@, who, i as int);
                    lemma_remove_key(pre.accounts@, i as int);
                    lemma_sum_remove(pre.accounts@, i as int);
                }
                let data = self.accounts[i].1;
                let _ = self.accounts.remove(i);
                let total = data.total();
                if total > 0 {
                    self.total_issuance = if self.total_issuance >= total {
                        self.total_issuance - total
                    } else {
                        0
                    };
                    Some(total)
                } else {
                    None
                }
            },
            None => None,
        }
    }
}

} // verus!
