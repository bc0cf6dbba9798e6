//! The issuance-affecting primitives of the currency engine: burning and
//! issuing, deposits, withdrawals, slashing and forced balance writes.
//! Each one returns imbalance tokens sized exactly to the amount moved, so
//! the books can be squared at the consumption point.

use vstd::prelude::*;

verus! {

use crate::types::{
    AccountData,
    AccountId,
    Balance,
    BlockNumber,
    Error,
    ExistenceRequirement,
    Reasons,
    acct_with_free,
    acct_with_parts,
    sat_add,
    sat_sub,
    spec_frozen,
    total_int,
};
use crate::imbalance::{NegativeImbalance, PositiveImbalance, SignedImbalance};
use crate::ledger::{
    Ledger,
    accounts_unchanged_except,
    accounts_unchanged_except2,
    aux_unchanged,
    same_but_issuance,
    spec_dust,
};
use crate::spread::{spreads_preserved, spreads_unchanged_except};

impl Ledger {
    /// Whether `value` of free balance can be slashed from `who`; always
    /// true for a zero value.
    pub fn can_slash(&self, who: AccountId, value: Balance) -> (r: bool)
        requires
            self.wf(),
        ensures
            r == (value == 0 || self.account_of(who).free >= value),
    {
        if value == 0 {
            return true;
        }
        self.free_balance(who) >= value
    }

    /// Whether `who` can withdraw `amount`, leaving `new_balance` of free
    /// balance, without violating a lock; a zero amount always can.
    pub fn ensure_can_withdraw(
        &self,
        who: AccountId,
        amount: Balance,
        reasons: Reasons,
        new_balance: Balance,
    ) -> (r: Result<(), Error>)
        requires
            self.wf(),
        ensures
            r is Ok <==> (amount == 0 || new_balance >= spec_frozen(self.account_of(who), reasons)),
            r is Err ==> r->Err_0 == Error::LiquidityRestrictions,
    {
        if amount == 0 {
            return Ok(());
        }
        let min_balance = self.account(who).frozen(reasons);
        if new_balance >= min_balance {
            Ok(())
        } else {
            Err(Error::LiquidityRestrictions)
        }
    }

    /// Destroys up to `amount` units of issuance, clamped to what is
    /// issued, and returns a positive token for exactly what was removed.
    pub fn burn(&mut self, amount: Balance) -> (r: PositiveImbalance)
        ensures
            same_but_issuance(*final(self), *old(self)),
            r.amount == (if amount <= old(self).total_issuance {
                amount
            } else {
                old(self).total_issuance
            }),
            final(self).total_issuance == old(self).total_issuance - r.amount,
    {
        if amount == 0 {
            return PositiveImbalance::zero();
        }
        let burned = if amount <= self.total_issuance {
            amount
        } else {
            self.total_issuance
        };
        self.total_issuance = self.total_issuance - burned;
        PositiveImbalance::new(burned)
    }

    /// Creates up to `amount` units of issuance, clamped to the `Balance`
    /// domain, and returns a negative token for exactly what was created.
    pub fn issue(&mut self, amount: Balance) -> (r: NegativeImbalance)
        ensures
            same_but_issuance(*final(self), *old(self)),
            r.amount == (if amount <= Balance::MAX - old(self).total_issuance {
                amount
            } else {
                (Balance::MAX - old(self).total_issuance) as Balance
            }),
            final(self).total_issuance == old(self).total_issuance + r.amount,
    {
        if amount == 0 {
            return NegativeImbalance::zero();
        }
        let headroom = Balance::MAX - self.total_issuance;
        let issued = if amount <= headroom {
            amount
        } else {
            headroom
        };
        self.total_issuance = self.total_issuance + issued;
        NegativeImbalance::new(issued)
    }

    /// Deposits `value` into the free balance of an account that must
    /// already exist. Returns a positive token for the deposit; a zero
    /// value is a no-op that always succeeds.
    pub fn deposit_into_existing(&mut self, who: AccountId, value: Balance) -> (r: Result<
        PositiveImbalance,
        Error,
    >)
        requires
            old(self).wf(),
        ensures
            final(self).wf(),
            aux_unchanged(*final(self), *old(self)),
            final(self).total_issuance == old(self).total_issuance,
            r is Ok <==> (value == 0 || (old(self).has_account(who) && old(self).account_of(
                who,
            ).free + value <= Balance::MAX)),
            r matches Ok(p) ==> p.amount == (if value == 0 {
                0
            } else {
                value
            }),
            r is Err ==> *final(self) == *old(self),
            r is Err ==> r->Err_0 == (if !old(self).has_account(who) {
                Error::DeadAccount
            } else {
                Error::Overflow
            }),
            value == 0 ==> *final(self) == *old(self),
            r is Ok && value > 0 ==> {
                &&& final(self).has_account(who)
                &&& final(self).account_of(who) == acct_with_free(
                    old(self).account_of(who),
                    (old(self).account_of(who).free + value) as Balance,
                )
                &&& accounts_unchanged_except(*final(self), *old(self), who)
                &&& final(self).sum_of_totals() == old(self).sum_of_totals() + value
            },
    {
        if value == 0 {
            return Ok(PositiveImbalance::zero());
        }
        if self.is_dead_account(who) {
            return Err(Error::DeadAccount);
        }
        let a = self.account(who);
        if value > Balance::MAX - a.free {
            return Err(Error::Overflow);
        }
        proof {
            self.lemma_account_wf(who);
        }
        let new = AccountData { free: a.free + value, ..a };
        let _outcome = self.mutate_account(who, new);
        Ok(PositiveImbalance::new(value))
    }

    /// Deposits `value` into the free balance of `who`, creating the
    /// account when the value reaches the existential deposit. A zero
    /// value, a value too small to create the account, or an overflowing
    /// value leave everything unchanged and return a zero token.
    pub fn deposit_creating(&mut self, who: AccountId, value: Balance) -> (r: PositiveImbalance)
        requires
            old(self).wf(),
        ensures
            final(self).wf(),
            aux_unchanged(*final(self), *old(self)),
            final(self).total_issuance == old(self).total_issuance,
            ({
                let deposited = value > 0 && (old(self).has_account(who) || value >= old(
                    self,
                ).existential_deposit) && old(self).account_of(who).free + value <= Balance::MAX;
                &&& r.amount == (if deposited {
                    value
                } else {
                    0
                })
                &&& !deposited ==> *final(self) == *old(self)
                &&& deposited ==> {
                    &&& final(self).has_account(who)
                    &&& final(self).account_of(who) == acct_with_free(
                        old(self).account_of(who),
                        (old(self).account_of(who).free + value) as Balance,
                    )
                    &&& accounts_unchanged_except(*final(self), *old(self), who)
                    &&& final(self).sum_of_totals() == old(self).sum_of_totals() + value
                }
            }),
    {
        if value == 0 {
            return PositiveImbalance::zero();
        }
        let is_new = self.is_dead_account(who);
        if is_new && value < self.existential_deposit {
            return PositiveImbalance::zero();
        }
        let a = self.account(who);
        if value > Balance::MAX - a.free {
            return PositiveImbalance::zero();
        }
        proof {
            if !is_new {
                self.lemma_account_wf(who);
            }
        }
        let new = AccountData { free: a.free + value, ..a };
        let _outcome = self.mutate_account(who, new);
        PositiveImbalance::new(value)
    }

    /// The error a withdrawal would be refused with, in the order the
    /// checks run: funds, then the keep-alive rule, then the locks.
    pub open spec fn spec_withdraw_error(
        self,
        who: AccountId,
        value: Balance,
        reasons: Reasons,
        liveness: ExistenceRequirement,
    ) -> Option<Error> {
        let a = self.account_of(who);
        let ed = self.existential_deposit;
        if value == 0 {
            None
        } else if a.free < value {
            Some(Error::InsufficientBalance)
        } else if liveness == ExistenceRequirement::KeepAlive && a.free - value + a.reserved < ed
            && a.free + a.reserved >= ed {
            Some(Error::KeepAlive)
        } else if a.free - value < spec_frozen(a, reasons) {
            Some(Error::LiquidityRestrictions)
        } else {
            None
        }
    }

    /// Withdraws `value` from the free balance of `who` for the given
    /// reasons, refusing to violate locks or, unless death is allowed, to
    /// kill the account. Returns a negative token for the withdrawal; a
    /// zero value is a no-op.
    pub fn withdraw(
        &mut self,
        who: AccountId,
        value: Balance,
        reasons: Reasons,
        liveness: ExistenceRequirement,
    ) -> (r: Result<NegativeImbalance, Error>)
        requires
            old(self).wf(),
        ensures
            final(self).wf(),
            aux_unchanged(*final(self), *old(self)),
            r is Ok <==> old(self).spec_withdraw_error(who, value, reasons, liveness) is None,
            r matches Err(e) ==> Some(e) == old(self).spec_withdraw_error(
                who,
                value,
                reasons,
                liveness,
            ) && *final(self) == *old(self),
            r matches Ok(n) ==> n.amount == value,
            r is Ok && value == 0 ==> *final(self) == *old(self),
            r is Ok && value > 0 ==> ({
                let na = acct_with_free(
                    old(self).account_of(who),
                    (old(self).account_of(who).free - value) as Balance,
                );
                let dust = spec_dust(na, old(self).existential_deposit);
                &&& (if total_int(na) >= old(self).existential_deposit {
                    final(self).has_account(who) && final(self).account_of(who) == na
                } else {
                    !final(self).has_account(who)
                })
                &&& accounts_unchanged_except(*final(self), *old(self), who)
                &&& final(self).total_issuance as int == sat_sub(
                    old(self).total_issuance as int,
                    dust,
                )
                &&& final(self).sum_of_totals() == old(self).sum_of_totals() - value - dust
            }),
    {
        if value == 0 {
            return Ok(NegativeImbalance::zero());
        }
        let a = self.account(who);
        if a.free < value {
            return Err(Error::InsufficientBalance);
        }
        let new_free = a.free - value;
        let ed = self.existential_deposit;
        let would_be_dead = (new_free as u128) + (a.reserved as u128) < (ed as u128);
        let would_kill = would_be_dead && (a.free as u128) + (a.reserved as u128) >= (ed as u128);
        if liveness == ExistenceRequirement::KeepAlive && would_kill {
            return Err(Error::KeepAlive);
        }
        if new_free < a.frozen(reasons) {
            return Err(Error::LiquidityRestrictions);
        }
        let new = AccountData { free: new_free, ..a };
        let _outcome = self.mutate_account(who, new);
        Ok(NegativeImbalance::new(value))
    }

    /// Slashes up to `value` from `who`, the free balance first and the
    /// reserved balance for the shortfall. Never fails: returns a negative
    /// token for what was actually removed and the amount that could not
    /// be; a zero value is a no-op.
    pub fn slash(&mut self, who: AccountId, value: Balance) -> (r: (NegativeImbalance, Balance))
        requires
            old(self).wf(),
        ensures
            final(self).wf(),
            aux_unchanged(*final(self), *old(self)),
            value == 0 ==> *final(self) == *old(self) && r.0.amount == 0 && r.1 == 0,
            value > 0 ==> ({
                let a = old(self).account_of(who);
                let free_slash = if a.free <= value {
                    a.free
                } else {
                    value
                };
                let rest = (value - free_slash) as Balance;
                let reserved_slash = if a.reserved <= rest {
                    a.reserved
                } else {
                    rest
                };
                let na = acct_with_parts(
                    a,
                    (a.free - free_slash) as Balance,
                    (a.reserved - reserved_slash) as Balance,
                );
                let dust = spec_dust(na, old(self).existential_deposit);
                &&& r.0.amount == free_slash + reserved_slash
                &&& r.1 == value - free_slash - reserved_slash
                &&& (if total_int(na) >= old(self).existential_deposit {
                    final(self).has_account(who) && final(self).account_of(who) == na
                } else {
                    !final(self).has_account(who)
                })
                &&& accounts_unchanged_except(*final(self), *old(self), who)
                &&& final(self).total_issuance as int == sat_sub(
                    old(self).total_issuance as int,
                    dust,
                )
                &&& final(self).sum_of_totals() == old(self).sum_of_totals() - free_slash
                    - reserved_slash - dust
            }),
    {
        if value == 0 {
            return (NegativeImbalance::zero(), 0);
        }
        let a = self.account(who);
        let free_slash = if a.free <= value {
            a.free
        } else {
            value
        };
        let rest = value - free_slash;
        let reserved_slash = if a.reserved <= rest {
            a.reserved
        } else {
            rest
        };
        let new = AccountData {
            free: a.free - free_slash,
            reserved: a.reserved - reserved_slash,
            ..a
        };
        let _outcome = self.mutate_account(who, new);
        (NegativeImbalance::new(free_slash + reserved_slash), rest - reserved_slash)
    }

    /// Forces the free balance of `who` to `value`, returning a token for
    /// the difference. A value that would create a new account below the
    /// existential deposit leaves everything unchanged and returns a zero
    /// positive token.
    pub fn make_free_balance_be(&mut self, who: AccountId, value: Balance) -> (r: SignedImbalance)
        requires
            old(self).wf(),
        ensures
            final(self).wf(),
            aux_unchanged(*final(self), *old(self)),
            ({
                let a = old(self).account_of(who);
                let bail = !old(self).has_account(who) && sat_add(
                    value as int,
                    a.reserved as int,
                ) < old(self).existential_deposit;
                let na = acct_with_free(a, value);
                let dust = spec_dust(na, old(self).existential_deposit);
                if bail {
                    &&& *final(self) == *old(self)
                    &&& (r matches SignedImbalance::Positive(p) && p.amount == 0)
                } else {
                    &&& (if a.free <= value {
                        r matches SignedImbalance::Positive(p) && p.amount == value - a.free
                    } else {
                        r matches SignedImbalance::Negative(n) && n.amount == a.free - value
                    })
                    &&& (if total_int(na) >= old(self).existential_deposit {
                        final(self).has_account(who) && final(self).account_of(who) == na
                    } else {
                        !final(self).has_account(who)
                    })
                    &&& accounts_unchanged_except(*final(self), *old(self), who)
                    &&& final(self).total_issuance as int == sat_sub(
                        old(self).total_issuance as int,
                        dust,
                    )
                    &&& final(self).sum_of_totals() == old(self).sum_of_totals() - (if old(
                        self,
                    ).has_account(who) {
                        total_int(a)
                    } else {
                        0
                    }) + (if total_int(na) >= old(self).existential_deposit {
                        total_int(na)
                    } else {
                        0
                    })
                }
            }),
    {
        let is_new = self.is_dead_account(who);
        let a = self.account(who);
        let ed = self.existential_deposit;
        if is_new && (value as u128) + (a.reserved as u128) < (ed as u128) {
            return SignedImbalance::Positive(PositiveImbalance::zero());
        }
        let imbalance = if a.free <= value {
            SignedImbalance::Positive(PositiveImbalance::new(value - a.free))
        } else {
            SignedImbalance::Negative(NegativeImbalance::new(a.free - value))
        };
        let new = AccountData { free: value, ..a };
        let _outcome = self.mutate_account(who, new);
        imbalance
    }
}

impl Ledger {
    /// Overwrites both parts of the balance of `who`, a privileged
    /// operation that bypasses the usual transfer checks. A sum below the
    /// existential deposit wipes both parts to zero. The issuance is
    /// adjusted by the free-part delta and then the reserved-part delta,
    /// each clamped to the `Balance` domain, so the books follow the
    /// overwrite. Returns the written pair.
    pub fn set_balance(&mut self, who: AccountId, new_free: Balance, new_reserved: Balance) -> (r: (
        Balance,
        Balance,
    ))
        requires
            old(self).wf(),
        ensures
            final(self).wf(),
            aux_unchanged(*final(self), *old(self)),
            ({
                let ed = old(self).existential_deposit;
                let wipeout = new_free + new_reserved < ed;
                let nf: Balance = if wipeout {
                    0
                } else {
                    new_free
                };
                let nr: Balance = if wipeout {
                    0
                } else {
                    new_reserved
                };
                let a = old(self).account_of(who);
                let na = acct_with_parts(a, nf, nr);
                let i1 = if nf >= a.free {
                    sat_add(old(self).total_issuance as int, nf - a.free)
                } else {
                    sat_sub(old(self).total_issuance as int, a.free - nf)
                };
                let i2 = if nr >= a.reserved {
                    sat_add(i1, nr - a.reserved)
                } else {
                    sat_sub(i1, a.reserved - nr)
                };
                &&& r == (nf, nr)
                &&& final(self).total_issuance as int == i2
                &&& (if total_int(na) >= ed {
                    final(self).has_account(who) && final(self).account_of(who) == na
                } else {
                    !final(self).has_account(who)
                })
                &&& accounts_unchanged_except(*final(self), *old(self), who)
                &&& final(self).sum_of_totals() == old(self).sum_of_totals() - (if old(
                    self,
                ).has_account(who) {
                    total_int(a)
                } else {
                    0
                }) + (if total_int(na) >= ed {
                    total_int(na)
                } else {
                    0
                })
            }),
    {
        let ed = self.existential_deposit;
        let wipeout = (new_free as u128) + (new_reserved as u128) < (ed as u128);
        let nf = if wipeout {
            0
        } else {
            new_free
        };
        let nr = if wipeout {
            0
        } else {
            new_reserved
        };
        let a = self.account(who);
        if nf >= a.free {
            let d = nf - a.free;
            self.total_issuance = if self.total_issuance <= Balance::MAX - d {
                self.total_issuance + d
            } else {
                Balance::MAX
            };
        } else {
            let d = a.free - nf;
            self.total_issuance = if self.total_issuance >= d {
                self.total_issuance - d
            } else {
                0
            };
        }
        if nr >= a.reserved {
            let d = nr - a.reserved;
            self.total_issuance = if self.total_issuance <= Balance::MAX - d {
                self.total_issuance + d
            } else {
                Balance::MAX
            };
        } else {
            let d = a.reserved - nr;
            self.total_issuance = if self.total_issuance >= d {
                self.total_issuance - d
            } else {
                0
            };
        }
        let na = AccountData { free: nf, reserved: nr, ..a };
        let _outcome = self.mutate_account(who, na);
        (nf, nr)
    }
}

/// The balance-moving effect of a successful transfer of a positive
/// `value` between two distinct accounts: the destination is credited, the
/// source debited and swept as dust if it fell below the existential
/// deposit, and nobody else moves.
pub open spec fn spec_transfer_post(
    pre: Ledger,
    post: Ledger,
    from: AccountId,
    to: AccountId,
    value: Balance,
) -> bool {
    let fa = pre.account_of(from);
    let ta = pre.account_of(to);
    let fa_new = acct_with_free(fa, (fa.free - value) as Balance);
    let ta_new = acct_with_free(ta, (ta.free + value) as Balance);
    let dust = spec_dust(fa_new, pre.existential_deposit);
    &&& post.has_account(to)
    &&& post.account_of(to) == ta_new
    &&& (if total_int(fa_new) >= pre.existential_deposit {
        post.has_account(from) && post.account_of(from) == fa_new
    } else {
        !post.has_account(from)
    })
    &&& accounts_unchanged_except2(post, pre, from, to)
    &&& post.total_issuance as int == sat_sub(pre.total_issuance as int, dust)
    &&& post.sum_of_totals() == pre.sum_of_totals() - dust
}

impl Ledger {
    /// The error a transfer would be refused with, in the order the checks
    /// run; a zero value or a self-transfer is always accepted.
    pub open spec fn spec_transfer_error(
        self,
        from: AccountId,
        to: AccountId,
        value: Balance,
        liveness: ExistenceRequirement,
    ) -> Option<Error> {
        let fa = self.account_of(from);
        let ta = self.account_of(to);
        let ed = self.existential_deposit;
        if value == 0 || from == to {
            None
        } else if fa.free < value {
            Some(Error::InsufficientBalance)
        } else if ta.free + value > Balance::MAX {
            Some(Error::Overflow)
        } else if ta.free + value + ta.reserved < ed {
            Some(Error::ExistentialDeposit)
        } else if fa.free - value < spec_frozen(fa, Reasons::Misc) {
            Some(Error::LiquidityRestrictions)
        } else if !(liveness == ExistenceRequirement::AllowDeath && !self.has_locks(from))
            && fa.free - value < ed {
            Some(Error::KeepAlive)
        } else {
            None
        }
    }

    /// Runs the transfer checks alone, writing nothing.
    pub fn transfer_error(
        &self,
        from: AccountId,
        to: AccountId,
        value: Balance,
        liveness: ExistenceRequirement,
    ) -> (r: Option<Error>)
        requires
            self.wf(),
        ensures
            r == self.spec_transfer_error(from, to, value, liveness),
    {
        if value == 0 || from == to {
            return None;
        }
        let fa = self.account(from);
        let ta = self.account(to);
        if fa.free < value {
            return Some(Error::InsufficientBalance);
        }
        if value > Balance::MAX - ta.free {
            return Some(Error::Overflow);
        }
        let new_to = AccountData { free: ta.free + value, ..ta };
        if new_to.total() < self.existential_deposit {
            return Some(Error::ExistentialDeposit);
        }
        let new_from_free = fa.free - value;
        if new_from_free < fa.frozen(Reasons::Misc) {
            return Some(Error::LiquidityRestrictions);
        }
        let allow_death = liveness == ExistenceRequirement::AllowDeath && !self.any_locks(from);
        if !allow_death && new_from_free < self.existential_deposit {
            return Some(Error::KeepAlive);
        }
        None
    }

    /// Moves `value` of free balance between the accounts, atomically: on
    /// any error nothing is written. An account carrying locks cannot be
    /// killed by a transfer, whatever the liveness argument says.
    pub(crate) fn transfer_balances(
        &mut self,
        from: AccountId,
        to: AccountId,
        value: Balance,
        liveness: ExistenceRequirement,
    ) -> (r: Result<(), Error>)
        requires
            old(self).wf(),
        ensures
            final(self).wf(),
            aux_unchanged(*final(self), *old(self)),
            r is Ok <==> old(self).spec_transfer_error(from, to, value, liveness) is None,
            r matches Err(e) ==> Some(e) == old(self).spec_transfer_error(from, to, value, liveness)
                && *final(self) == *old(self),
            r is Ok && (value == 0 || from == to) ==> *final(self) == *old(self),
            r is Ok && value > 0 && from != to ==> spec_transfer_post(
                *old(self),
                *final(self),
                from,
                to,
                value,
            ),
    {
        match self.transfer_error(from, to, value, liveness) {
            Some(e) => {
                return Err(e);
            },
            None => {},
        }
        if value == 0 || from == to {
            return Ok(());
        }
        let fa = self.account(from);
        let ta = self.account(to);
        let new_from = AccountData { free: fa.free - value, ..fa };
        let new_to = AccountData { free: ta.free + value, ..ta };
        let _from_outcome = self.mutate_account(from, new_from);
        let _to_outcome = self.mutate_account(to, new_to);
        Ok(())
    }

    /// Transfers `value` of free balance from one account to the other;
    /// at the destination's first contact a rootless referral edge is
    /// linked for it. Atomic: on any error nothing is written.
    pub fn transfer(
        &mut self,
        from: AccountId,
        to: AccountId,
        value: Balance,
        liveness: ExistenceRequirement,
        height: BlockNumber,
    ) -> (r: Result<(), Error>)
        requires
            old(self).wf(),
        ensures
            final(self).wf(),
            final(self).existential_deposit == old(self).existential_deposit,
            final(self).locks == old(self).locks,
            final(self).commission == old(self).commission,
            r is Ok <==> old(self).spec_transfer_error(from, to, value, liveness) is None,
            r matches Err(e) ==> Some(e) == old(self).spec_transfer_error(from, to, value, liveness)
                && *final(self) == *old(self),
            r is Ok ==> {
                &&& (old(self).has_spread(to) ==> final(self).spreads == old(self).spreads)
                &&& (!old(self).has_spread(to) ==> final(self).has_spread(to)
                    && final(self).spread_of(to).from is None
                    && final(self).spread_of(to).last_height == height)
                &&& spreads_unchanged_except(*final(self), *old(self), to)
                &&& spreads_preserved(*final(self), *old(self))
            },
            r is Ok && (value == 0 || from == to) ==> final(self).accounts == old(self).accounts
                && final(self).total_issuance == old(self).total_issuance,
            r is Ok && value > 0 && from != to ==> spec_transfer_post(
                *old(self),
                *final(self),
                from,
                to,
                value,
            ),
    {
        match self.transfer_balances(from, to, value, liveness) {
            Ok(()) => {
                self.link_if_absent(to, None, height);
                Ok(())
            },
            Err(e) => Err(e),
        }
    }

    /// Exactly as `transfer`, but the origin account must stay alive.
    pub fn transfer_keep_alive(
        &mut self,
        from: AccountId,
        to: AccountId,
        value: Balance,
        height: BlockNumber,
    ) -> (r: Result<(), Error>)
        requires
            old(self).wf(),
        ensures
            final(self).wf(),
            final(self).existential_deposit == old(self).existential_deposit,
            final(self).locks == old(self).locks,
            final(self).commission == old(self).commission,
            r is Ok <==> old(self).spec_transfer_error(
                from,
                to,
                value,
                ExistenceRequirement::KeepAlive,
            ) is None,
            r matches Err(e) ==> Some(e) == old(self).spec_transfer_error(
                from,
                to,
                value,
                ExistenceRequirement::KeepAlive,
            ) && *final(self) == *old(self),
            r is Ok ==> {
                &&& (old(self).has_spread(to) ==> final(self).spreads == old(self).spreads)
                &&& (!old(self).has_spread(to) ==> final(self).has_spread(to)
                    && final(self).spread_of(to).from is None
                    && final(self).spread_of(to).last_height == height)
                &&& spreads_unchanged_except(*final(self), *old(self), to)
                &&& spreads_preserved(*final(self), *old(self))
            },
            r is Ok && (value == 0 || from == to) ==> final(self).accounts == old(self).accounts
                && final(self).total_issuance == old(self).total_issuance,
            r is Ok && value > 0 && from != to ==> spec_transfer_post(
                *old(self),
                *final(self),
                from,
                to,
                value,
            ),
    {
        self.transfer(from, to, value, ExistenceRequirement::KeepAlive, height)
    }

    /// Exactly as a plain balance transfer with death allowed, but without
    /// touching the referral forest; meant for a privileged caller that
    /// names the source itself.
    pub fn force_transfer(&mut self, source: AccountId, dest: AccountId, value: Balance) -> (r:
        Result<(), Error>)
        requires
            old(self).wf(),
        ensures
            final(self).wf(),
            aux_unchanged(*final(self), *old(self)),
            r is Ok <==> old(self).spec_transfer_error(
                source,
                dest,
                value,
                ExistenceRequirement::AllowDeath,
            ) is None,
            r matches Err(e) ==> Some(e) == old(self).spec_transfer_error(
                source,
                dest,
                value,
                ExistenceRequirement::AllowDeath,
            ) && *final(self) == *old(self),
            r is Ok && (value == 0 || source == dest) ==> *final(self) == *old(self),
            r is Ok && value > 0 && source != dest ==> spec_transfer_post(
                *old(self),
                *final(self),
                source,
                dest,
                value,
            ),
    {
        self.transfer_balances(source, dest, value, ExistenceRequirement::AllowDeath)
    }
}

} // verus!
