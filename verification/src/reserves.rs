//! Reserved balances: earmarking funds out of the free balance, releasing
//! them again, slashing them, and moving them to another account.

use vstd::prelude::*;

verus! {

use crate::types::{
    AccountData,
    AccountId,
    Balance,
    Error,
    Reasons,
    Status,
    acct_with_parts,
    sat_add,
    sat_sub,
    spec_frozen,
    total_int,
};
use crate::imbalance::NegativeImbalance;
use crate::ledger::{
    Ledger,
    accounts_unchanged_except,
    accounts_unchanged_except2,
    aux_unchanged,
    spec_dust,
};

impl Ledger {
    /// Whether `who` can move `value` from free to reserved balance;
    /// always true for a zero value.
    pub fn can_reserve(&self, who: AccountId, value: Balance) -> (r: bool)
        requires
            self.wf(),
        ensures
            r == (value == 0 || (self.account_of(who).free >= value && self.account_of(who).free
                - value >= spec_frozen(self.account_of(who), Reasons::Misc))),
    {
        if value == 0 {
            return true;
        }
        let a = self.account(who);
        if a.free < value {
            return false;
        }
        self.ensure_can_withdraw(who, value, Reasons::Misc, a.free - value).is_ok()
    }

    /// The error a reservation would be refused with, in the order the
    /// checks run.
    pub open spec fn spec_reserve_error(self, who: AccountId, value: Balance) -> Option<Error> {
        let a = self.account_of(who);
        if value == 0 {
            None
        } else if a.free < value {
            Some(Error::InsufficientBalance)
        } else if a.reserved + value > Balance::MAX {
            Some(Error::Overflow)
        } else if a.free - value < spec_frozen(a, Reasons::Misc) {
            Some(Error::LiquidityRestrictions)
        } else {
            None
        }
    }

    /// Moves `value` from the free to the reserved balance of `who`; a
    /// zero value is a no-op.
    pub fn reserve(&mut self, who: AccountId, value: Balance) -> (r: Result<(), Error>)
        requires
            old(self).wf(),
        ensures
            final(self).wf(),
            aux_unchanged(*final(self), *old(self)),
            final(self).total_issuance == old(self).total_issuance,
            r is Ok <==> old(self).spec_reserve_error(who, value) is None,
            r matches Err(e) ==> Some(e) == old(self).spec_reserve_error(who, value)
                && *final(self) == *old(self),
            r is Ok && value == 0 ==> *final(self) == *old(self),
            r is Ok && value > 0 ==> ({
                let a = old(self).account_of(who);
                &&& final(self).has_account(who)
                &&& final(self).account_of(who) == acct_with_parts(
                    a,
                    (a.free - value) as Balance,
                    (a.reserved + value) as Balance,
                )
                &&& accounts_unchanged_except(*final(self), *old(self), who)
                &&& final(self).sum_of_totals() == old(self).sum_of_totals()
            }),
    {
        if value == 0 {
            return Ok(());
        }
        let a = self.account(who);
        if a.free < value {
            return Err(Error::InsufficientBalance);
        }
        if value > Balance::MAX - a.reserved {
            return Err(Error::Overflow);
        }
        if a.free - value < a.frozen(Reasons::Misc) {
            return Err(Error::LiquidityRestrictions);
        }
        proof {
            self.lemma_account_wf(who);
        }
        let new = AccountData { free: a.free - value, reserved: a.reserved + value, ..a };
        let _outcome = self.mutate_account(who, new);
        Ok(())
    }

    /// Releases up to `value` from the reserved back to the free balance
    /// of `who`. Never fails: returns the part of `value` that was not
    /// reserved and so could not be released; a zero value is a no-op.
    pub fn unreserve(&mut self, who: AccountId, value: Balance) -> (r: Balance)
        requires
            old(self).wf(),
        ensures
            final(self).wf(),
            aux_unchanged(*final(self), *old(self)),
            final(self).total_issuance == old(self).total_issuance,
            value == 0 ==> *final(self) == *old(self) && r == 0,
            value > 0 ==> ({
                let a = old(self).account_of(who);
                let actual = if a.reserved <= value {
                    a.reserved
                } else {
                    value
                };
                let na = acct_with_parts(
                    a,
                    sat_add(a.free as int, actual as int) as Balance,
                    (a.reserved - actual) as Balance,
                );
                &&& r == value - actual
                &&& (if total_int(na) >= old(self).existential_deposit {
                    final(self).has_account(who) && final(self).account_of(who) == na
                } else {
                    !final(self).has_account(who)
                })
                &&& accounts_unchanged_except(*final(self), *old(self), who)
            }),
    {
        if value == 0 {
            return 0;
        }
        let a = self.account(who);
        proof {
            if self.has_account(who) {
                self.lemma_account_wf(who);
            }
        }
        let actual = if a.reserved <= value {
            a.reserved
        } else {
            value
        };
        let new_free = if a.free <= Balance::MAX - actual {
            a.free + actual
        } else {
            Balance::MAX
        };
        let new = AccountData { free: new_free, reserved: a.reserved - actual, ..a };
        let _outcome = self.mutate_account(who, new);
        value - actual
    }

    /// Slashes up to `value` from the reserved balance of `who`. Never
    /// fails: returns a negative token for what was removed and the part
    /// that was not reserved; a zero value is a no-op.
    pub fn slash_reserved(&mut self, who: AccountId, value: Balance) -> (r: (
        NegativeImbalance,
        Balance,
    ))
        requires
            old(self).wf(),
        ensures
            final(self).wf(),
            aux_unchanged(*final(self), *old(self)),
            value == 0 ==> *final(self) == *old(self) && r.0.amount == 0 && r.1 == 0,
            value > 0 ==> ({
                let a = old(self).account_of(who);
                let actual = if a.reserved <= value {
                    a.reserved
                } else {
                    value
                };
                let na = acct_with_parts(a, a.free, (a.reserved - actual) as Balance);
                let dust = spec_dust(na, old(self).existential_deposit);
                &&& r.0.amount == actual
                &&& r.1 == value - actual
                &&& (if total_int(na) >= old(self).existential_deposit {
                    final(self).has_account(who) && final(self).account_of(who) == na
                } else {
                    !final(self).has_account(who)
                })
                &&& accounts_unchanged_except(*final(self), *old(self), who)
                &&& final(self).total_issuance as int == sat_sub(
                    old(self).total_issuance as int,
                    dust,
                )
                &&& final(self).sum_of_totals() == old(self).sum_of_totals() - actual - dust
            }),
    {
        if value == 0 {
            return (NegativeImbalance::zero(), 0);
        }
        let a = self.account(who);
        let actual = if a.reserved <= value {
            a.reserved
        } else {
            value
        };
        let new = AccountData { reserved: a.reserved - actual, ..a };
        let _outcome = self.mutate_account(who, new);
        (NegativeImbalance::new(actual), value - actual)
    }

    /// Moves up to `value` of the reserved balance of `slashed` into the
    /// account of `beneficiary`, landing it as free or reserved balance
    /// according to `status`. The beneficiary must exist unless it is the
    /// slashed account itself. Returns the part that could not be moved.
    pub fn repatriate_reserved(
        &mut self,
        slashed: AccountId,
        beneficiary: AccountId,
        value: Balance,
        status: Status,
    ) -> (r: Result<Balance, Error>)
        requires
            old(self).wf(),
        ensures
            final(self).wf(),
            aux_unchanged(*final(self), *old(self)),
            value == 0 ==> *final(self) == *old(self) && (r matches Ok(rem) && rem == 0),
            value > 0 && slashed == beneficiary && status == Status::Reserved ==> *final(self)
                == *old(self) && (r matches Ok(rem) && rem == sat_sub(
                value as int,
                old(self).account_of(slashed).reserved as int,
            )),
            value > 0 && slashed == beneficiary && status == Status::Free ==> ({
                let a = old(self).account_of(slashed);
                let actual = if a.reserved <= value {
                    a.reserved
                } else {
                    value
                };
                let na = acct_with_parts(
                    a,
                    sat_add(a.free as int, actual as int) as Balance,
                    (a.reserved - actual) as Balance,
                );
                &&& (r matches Ok(rem) && rem == value - actual)
                &&& final(self).total_issuance == old(self).total_issuance
                &&& (if total_int(na) >= old(self).existential_deposit {
                    final(self).has_account(slashed) && final(self).account_of(slashed) == na
                } else {
                    !final(self).has_account(slashed)
                })
                &&& accounts_unchanged_except(*final(self), *old(self), slashed)
            }),
            value > 0 && slashed != beneficiary ==> ({
                let fa = old(self).account_of(slashed);
                let ta = old(self).account_of(beneficiary);
                let actual = if fa.reserved <= value {
                    fa.reserved
                } else {
                    value
                };
                let grown = if status == Status::Free {
                    ta.free + actual
                } else {
                    ta.reserved + actual
                };
                let ta_new = if status == Status::Free {
                    acct_with_parts(ta, (ta.free + actual) as Balance, ta.reserved)
                } else {
                    acct_with_parts(ta, ta.free, (ta.reserved + actual) as Balance)
                };
                let fa_new = acct_with_parts(fa, fa.free, (fa.reserved - actual) as Balance);
                let dust = spec_dust(fa_new, old(self).existential_deposit);
                if !old(self).has_account(beneficiary) {
                    r matches Err(e) && e == Error::DeadAccount && *final(self) == *old(self)
                } else if grown > Balance::MAX {
                    r matches Err(e) && e == Error::Overflow && *final(self) == *old(self)
                } else {
                    &&& (r matches Ok(rem) && rem == value - actual)
                    &&& final(self).has_account(beneficiary)
                    &&& final(self).account_of(beneficiary) == ta_new
                    &&& (if total_int(fa_new) >= old(self).existential_deposit {
                        final(self).has_account(slashed) && final(self).account_of(slashed)
                            == fa_new
                    } else {
                        !final(self).has_account(slashed)
                    })
                    &&& accounts_unchanged_except2(*final(self), *old(self), slashed, beneficiary)
                    &&& final(self).total_issuance as int == sat_sub(
                        old(self).total_issuance as int,
                        dust,
                    )
                    &&& final(self).sum_of_totals() == old(self).sum_of_totals() - dust
                }
            }),
    {
        if value == 0 {
            return Ok(0);
        }
        if slashed == beneficiary {
            return match status {
                Status::Free => Ok(self.unreserve(slashed, value)),
                Status::Reserved => {
                    let reserved = self.reserved_balance(slashed);
                    Ok(
                        if value >= reserved {
                            value - reserved
                        } else {
                            0
                        },
                    )
                },
            };
        }
        if self.is_dead_account(beneficiary) {
            return Err(Error::DeadAccount);
        }
        let fa = self.account(slashed);
        let ta = self.account(beneficiary);
        let actual = if fa.reserved <= value {
            fa.reserved
        } else {
            value
        };
        let ta_new = match status {
            Status::Free => {
                if actual > Balance::MAX - ta.free {
                    return Err(Error::Overflow);
                }
                AccountData { free: ta.free + actual, ..ta }
            },
            Status::Reserved => {
                if actual > Balance::MAX - ta.reserved {
                    return Err(Error::Overflow);
                }
                AccountData { reserved: ta.reserved + actual, ..ta }
            },
        };
        proof {
            self.lemma_account_wf(beneficiary);
        }
        let fa_new = AccountData { reserved: fa.reserved - actual, ..fa };
        let _from_outcome = self.mutate_account(slashed, fa_new);
        let _to_outcome = self.mutate_account(beneficiary, ta_new);
        Ok(value - actual)
    }
}

} // verus!
