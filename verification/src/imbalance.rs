//! Imbalance tokens: ephemeral proof that funds were created or destroyed
//! without an equal and opposite account mutation yet applied.
//!
//! Every token an operation hands out must eventually be passed to one of
//! the ledger's consumption points (`Ledger::consume_positive`,
//! `Ledger::consume_negative`), which folds its amount into the total
//! issuance. Two same-sign tokens can be merged or split, and opposite-sign
//! tokens can be offset, without changing the outstanding total.

use vstd::prelude::*;

verus! {

use crate::types::Balance;
use crate::types::sat_add;

/// A token denoting that funds were created without any equal and opposite
/// accounting; consuming it increases the total issuance.
#[derive(Debug)]
pub struct PositiveImbalance {
    /// How much was created.
    pub amount: Balance,
}

/// A token denoting that funds were destroyed without any equal and
/// opposite accounting; consuming it decreases the total issuance.
#[derive(Debug)]
pub struct NegativeImbalance {
    /// How much was destroyed.
    pub amount: Balance,
}

/// Either kind of token, for operations whose direction depends on the
/// balance they replace.
#[derive(Debug)]
pub enum SignedImbalance {
    /// Funds were created.
    Positive(PositiveImbalance),
    /// Funds were destroyed.
    Negative(NegativeImbalance),
}

impl PositiveImbalance {
    /// A token for `amount` newly created units.
    pub fn new(amount: Balance) -> (r: PositiveImbalance)
        ensures
            r.amount == amount,
    {
        PositiveImbalance { amount }
    }

    /// A token that stands for nothing.
    pub fn zero() -> (r: PositiveImbalance)
        ensures
            r.amount == 0,
    {
        PositiveImbalance { amount: 0 }
    }

    /// The amount this token stands for.
    pub fn peek(&self) -> (r: Balance)
        ensures
            r == self.amount,
    {
        self.amount
    }

    /// Discards the token if it stands for nothing; otherwise hands it back.
    pub fn drop_zero(self) -> (r: Result<(), PositiveImbalance>)
        ensures
            self.amount == 0 <==> r is Ok,
            r is Err ==> r->Err_0 == self,
    {
        if self.amount == 0 {
            Ok(())
        } else {
            Err(self)
        }
    }

    /// Partitions the token: the first part holds at most `amount`, the
    /// second the remainder. The outstanding total is unchanged.
    pub fn split(self, amount: Balance) -> (r: (PositiveImbalance, PositiveImbalance))
        ensures
            r.0.amount == if self.amount <= amount { self.amount } else { amount },
            r.0.amount + r.1.amount == self.amount,
    {
        let first = if self.amount <= amount {
            self.amount
        } else {
            amount
        };
        let second = self.amount - first;
        (PositiveImbalance { amount: first }, PositiveImbalance { amount: second })
    }

    /// Folds `other` into this token; the amounts add, clamped to the
    /// `Balance` domain.
    pub fn merge(self, other: PositiveImbalance) -> (r: PositiveImbalance)
        ensures
            r.amount == sat_add(self.amount as int, other.amount as int),
    {
        let amount = if self.amount <= Balance::MAX - other.amount {
            self.amount + other.amount
        } else {
            Balance::MAX
        };
        PositiveImbalance { amount }
    }

    /// Folds `other` into this token in place.
    pub fn subsume(&mut self, other: PositiveImbalance)
        ensures
            final(self).amount == sat_add(old(self).amount as int, other.amount as int),
    {
        let amount = if self.amount <= Balance::MAX - other.amount {
            self.amount + other.amount
        } else {
            Balance::MAX
        };
        self.amount = amount;
    }

    /// Nets this token against an opposite one: the dominant sign survives,
    /// carrying the difference.
    pub fn offset(self, other: NegativeImbalance) -> (r: Result<
        PositiveImbalance,
        NegativeImbalance,
    >)
        ensures
            self.amount >= other.amount ==> (r matches Ok(p) && p.amount == self.amount
                - other.amount),
            self.amount < other.amount ==> (r matches Err(n) && n.amount == other.amount
                - self.amount),
    {
        if self.amount >= other.amount {
            Ok(PositiveImbalance { amount: self.amount - other.amount })
        } else {
            Err(NegativeImbalance { amount: other.amount - self.amount })
        }
    }
}

impl NegativeImbalance {
    /// A token for `amount` destroyed units.
    pub fn new(amount: Balance) -> (r: NegativeImbalance)
        ensures
            r.amount == amount,
    {
        NegativeImbalance { amount }
    }

    /// A token that stands for nothing.
    pub fn zero() -> (r: NegativeImbalance)
        ensures
            r.amount == 0,
    {
        NegativeImbalance { amount: 0 }
    }

    /// The amount this token stands for.
    pub fn peek(&self) -> (r: Balance)
        ensures
            r == self.amount,
    {
        self.amount
    }

    /// Discards the token if it stands for nothing; otherwise hands it back.
    pub fn drop_zero(self) -> (r: Result<(), NegativeImbalance>)
        ensures
            self.amount == 0 <==> r is Ok,
            r is Err ==> r->Err_0 == self,
    {
        if self.amount == 0 {
            Ok(())
        } else {
            Err(self)
        }
    }

    /// Partitions the token: the first part holds at most `amount`, the
    /// second the remainder. The outstanding total is unchanged.
    pub fn split(self, amount: Balance) -> (r: (NegativeImbalance, NegativeImbalance))
        ensures
            r.0.amount == if self.amount <= amount { self.amount } else { amount },
            r.0.amount + r.1.amount == self.amount,
    {
        let first = if self.amount <= amount {
            self.amount
        } else {
            amount
        };
        let second = self.amount - first;
        (NegativeImbalance { amount: first }, NegativeImbalance { amount: second })
    }

    /// Folds `other` into this token; the amounts add, clamped to the
    /// `Balance` domain.
    pub fn merge(self, other: NegativeImbalance) -> (r: NegativeImbalance)
        ensures
            r.amount == sat_add(self.amount as int, other.amount as int),
    {
        let amount = if self.amount <= Balance::MAX - other.amount {
            self.amount + other.amount
        } else {
            Balance::MAX
        };
        NegativeImbalance { amount }
    }

    /// Folds `other` into this token in place.
    pub fn subsume(&mut self, other: NegativeImbalance)
        ensures
            final(self).amount == sat_add(old(self).amount as int, other.amount as int),
    {
        let amount = if self.amount <= Balance::MAX - other.amount {
            self.amount + other.amount
        } else {
            Balance::MAX
        };
        self.amount = amount;
    }

    /// Nets this token against an opposite one: the dominant sign survives,
    /// carrying the difference.
    pub fn offset(self, other: PositiveImbalance) -> (r: Result<
        NegativeImbalance,
        PositiveImbalance,
    >)
        ensures
            self.amount >= other.amount ==> (r matches Ok(n) && n.amount == self.amount
                - other.amount),
            self.amount < other.amount ==> (r matches Err(p) && p.amount == other.amount
                - self.amount),
    {
        if self.amount >= other.amount {
            Ok(NegativeImbalance { amount: self.amount - other.amount })
        } else {
            Err(PositiveImbalance { amount: other.amount - self.amount })
        }
    }
}

} // verus!
