//! The plain data model of the ledger: balances, locks, referral edges,
//! withdrawal reasons and the error taxonomy.

use vstd::prelude::*;

verus! {

/// Identity of an account.
pub type AccountId = u64;

/// The unit of value every balance is counted in.
pub type Balance = u64;

/// A monotonically non-decreasing clock supplied by the caller.
pub type BlockNumber = u64;

/// Nominal seconds per block, used to turn elapsed blocks into elapsed
/// minutes when commission accrues.
pub const BLOCK_SECONDS: u64 = 3;

/// Simplified reasons for withdrawing balance.
#[derive(Clone, Copy, PartialEq, Eq, Structural, Debug)]
pub enum Reasons {
    /// Paying system transaction fees.
    Fee,
    /// Any reason other than paying system transaction fees.
    Misc,
    /// Any reason at all.
    All,
}

impl Reasons {
    /// The union of two withdrawal reasons: equal reasons stay as they are,
    /// different ones widen to `All`.
    pub fn combine(self, other: Reasons) -> (r: Reasons)
        ensures
            r == spec_combine(self, other),
    {
        if self == other {
            self
        } else {
            Reasons::All
        }
    }
}

/// What `Reasons::combine` returns.
pub open spec fn spec_combine(a: Reasons, b: Reasons) -> Reasons {
    if a == b {
        a
    } else {
        Reasons::All
    }
}

/// A single named lock on an account's free balance. Locks with the same id
/// replace each other; locks with different ids overlay (the largest wins),
/// they do not add up.
#[derive(Clone, Copy, PartialEq, Eq, Structural, Debug)]
pub struct BalanceLock {
    /// Identifier of this lock; at most one lock per id exists on an account.
    pub id: u64,
    /// The amount below which the free balance may not drop while this lock
    /// applies.
    pub amount: Balance,
    /// Which withdrawals this lock restricts.
    pub reasons: Reasons,
}

/// All balance information for one account.
#[derive(Clone, Copy, PartialEq, Eq, Structural, Debug)]
pub struct AccountData {
    /// The part of the balance that is not reserved.
    pub free: Balance,
    /// The part that is set aside and may not be used, though it can still
    /// be slashed (after the free part).
    pub reserved: Balance,
    /// The amount `free` may not drop below for withdrawals other than fee
    /// payment; kept equal to the overlay of the `Misc` and `All` locks.
    pub misc_frozen: Balance,
    /// The amount `free` may not drop below for fee payment; kept equal to
    /// the overlay of the `Fee` and `All` locks.
    pub fee_frozen: Balance,
}

/// The free and reserved parts added up, as an unbounded integer.
pub open spec fn total_int(a: AccountData) -> int {
    a.free + a.reserved
}

/// `a + b` clamped to the `Balance` domain.
pub open spec fn sat_add(a: int, b: int) -> int {
    if a + b > Balance::MAX {
        Balance::MAX as int
    } else {
        a + b
    }
}

/// `a - b` clamped to zero.
pub open spec fn sat_sub(a: int, b: int) -> int {
    if a - b < 0 {
        0
    } else {
        a - b
    }
}

/// What `AccountData::frozen` returns: the floor under the free balance for
/// the given reasons.
pub open spec fn spec_frozen(a: AccountData, reasons: Reasons) -> int {
    match reasons {
        Reasons::All => if a.misc_frozen >= a.fee_frozen {
            a.misc_frozen as int
        } else {
            a.fee_frozen as int
        },
        Reasons::Misc => a.misc_frozen as int,
        Reasons::Fee => a.fee_frozen as int,
    }
}

/// What `AccountData::usable` returns: free balance above the frozen floor.
pub open spec fn spec_usable(a: AccountData, reasons: Reasons) -> int {
    sat_sub(a.free as int, spec_frozen(a, reasons))
}

impl AccountData {
    /// An account record with every field zero, the value an absent account
    /// reads as.
    pub fn zero() -> (r: AccountData)
        ensures
            r == spec_zero_account(),
    {
        AccountData { free: 0, reserved: 0, misc_frozen: 0, fee_frozen: 0 }
    }

    /// The floor below which `free` may not be drawn for the given reasons.
    pub fn frozen(&self, reasons: Reasons) -> (r: Balance)
        ensures
            r == spec_frozen(*self, reasons),
    {
        match reasons {
            Reasons::All => if self.misc_frozen >= self.fee_frozen {
                self.misc_frozen
            } else {
                self.fee_frozen
            },
            Reasons::Misc => self.misc_frozen,
            Reasons::Fee => self.fee_frozen,
        }
    }

    /// How much of the balance can be drawn for the given reasons.
    pub fn usable(&self, reasons: Reasons) -> (r: Balance)
        ensures
            r == spec_usable(*self, reasons),
    {
        let frozen = self.frozen(reasons);
        if self.free >= frozen {
            self.free - frozen
        } else {
            0
        }
    }

    /// The whole balance, reserved part included, clamped to the `Balance`
    /// domain.
    pub fn total(&self) -> (r: Balance)
        ensures
            r == sat_add(self.free as int, self.reserved as int),
    {
        if self.free <= Balance::MAX - self.reserved {
            self.free + self.reserved
        } else {
            Balance::MAX
        }
    }
}

/// `x` clamped to the `u128` domain.
pub open spec fn clamp_u128(x: int) -> int {
    if x > u128::MAX {
        u128::MAX as int
    } else {
        x
    }
}

/// Adds two `u128` amounts, clamped to the `u128` domain.
pub fn sat_add_u128(a: u128, b: u128) -> (r: u128)
    ensures
        r as int == clamp_u128(a + b),
{
    if a <= u128::MAX - b {
        a + b
    } else {
        u128::MAX
    }
}

/// `a` with its free part replaced and everything else kept.
pub open spec fn acct_with_free(a: AccountData, free: Balance) -> AccountData {
    AccountData { free, ..a }
}

/// `a` with both balance parts replaced and the frozen floors kept.
pub open spec fn acct_with_parts(a: AccountData, free: Balance, reserved: Balance) -> AccountData {
    AccountData { free, reserved, ..a }
}

/// The record an absent account reads as.
pub open spec fn spec_zero_account() -> AccountData {
    AccountData { free: 0, reserved: 0, misc_frozen: 0, fee_frozen: 0 }
}

/// The one-time link from an account to its upstream referrer, together
/// with the height at which commission last accrued for the account.
#[derive(Clone, Copy, Debug)]
pub struct Spread {
    /// The referrer, set at most once; `None` marks a root of the forest.
    pub from: Option<AccountId>,
    /// The height of the last accrual for this account.
    pub last_height: BlockNumber,
}

/// Whether an operation may leave an account dead.
#[derive(Clone, Copy, PartialEq, Eq, Structural, Debug)]
pub enum ExistenceRequirement {
    /// The operation must not remove the account.
    KeepAlive,
    /// The operation may remove the account.
    AllowDeath,
}

/// Where repatriated reserved funds land in the beneficiary's account.
#[derive(Clone, Copy, PartialEq, Eq, Structural, Debug)]
pub enum Status {
    /// Credited to the free balance.
    Free,
    /// Credited to the reserved balance.
    Reserved,
}

/// Why a ledger operation was refused. Every error is returned before any
/// state is written.
#[derive(Clone, Copy, PartialEq, Eq, Structural, Debug)]
pub enum Error {
    /// Account liquidity restrictions prevent withdrawal.
    LiquidityRestrictions,
    /// An addition would exceed the `Balance` domain.
    Overflow,
    /// Balance too low to send value.
    InsufficientBalance,
    /// Value too low to create an account due to the existential deposit.
    ExistentialDeposit,
    /// The operation would kill an account whose death is disallowed.
    KeepAlive,
    /// The beneficiary account must pre-exist.
    DeadAccount,
}

} // verus!
