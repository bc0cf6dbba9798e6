//! An account-balance ledger with a referral commission scheme layered on top.
//!
//! The ledger keeps free and reserved balances per account, named balance
//! locks that restrict what may be withdrawn, and a global issuance counter
//! kept in sync with the account balances through explicit imbalance tokens.
//! Accounts whose total balance falls below the existential deposit are
//! swept away as dust. On top of the currency engine sits a referral forest:
//! each account may be linked once to an upstream referrer, and value-moving
//! operations accrue a time- and balance-weighted commission to the referrer.

pub mod types;
pub mod imbalance;
pub mod store;
pub mod ledger;
pub mod currency;
pub mod reserves;
pub mod spread;
pub mod locks;
pub mod laws;
pub mod notices;
