use spread_ledger::ledger::Ledger;
use spread_ledger::types::{Error, ExistenceRequirement, Reasons, Status};

const ED: u64 = 10;

fn funded(pairs: &[(u64, u64)]) -> Ledger {
    let mut l = Ledger::new(ED);
    for &(who, free) in pairs {
        let token = l.deposit_creating(who, free);
        l.consume_positive(token);
    }
    l
}

#[test]
fn locked_funds_block_withdrawal() {
    let mut l = funded(&[(1, 100)]);
    l.set_lock(1, 1, 30, Reasons::Misc);
    let r = l.withdraw(1, 80, Reasons::Misc, ExistenceRequirement::AllowDeath);
    assert_eq!(r.unwrap_err(), Error::LiquidityRestrictions);
    assert_eq!(l.free_balance(1), 100);
    assert_eq!(l.usable_balance(1), 70);
    // up to the usable amount the withdrawal goes through
    let token = l
        .withdraw(1, 70, Reasons::Misc, ExistenceRequirement::AllowDeath)
        .unwrap();
    assert_eq!(token.peek(), 70);
}

#[test]
fn setting_the_same_lock_id_twice_keeps_one_lock() {
    let mut l = funded(&[(1, 100)]);
    l.set_lock(1, 1, 30, Reasons::Misc);
    l.set_lock(1, 1, 12, Reasons::Misc);
    let locks = l.locks(1);
    assert_eq!(locks.len(), 1);
    assert_eq!(locks[0].amount, 12);
    assert_eq!(l.account(1).misc_frozen, 12);
    // another id overlays instead of adding up
    l.set_lock(2, 1, 50, Reasons::All);
    assert_eq!(l.locks(1).len(), 2);
    assert_eq!(l.account(1).misc_frozen, 50);
    assert_eq!(l.account(1).fee_frozen, 50);
    // removed ids contribute nothing
    l.remove_lock(2, 1);
    assert_eq!(l.locks(1).len(), 1);
    assert_eq!(l.account(1).misc_frozen, 12);
    assert_eq!(l.account(1).fee_frozen, 0);
}

#[test]
fn zero_amount_lock_is_a_no_op() {
    let mut l = funded(&[(1, 100)]);
    l.set_lock(1, 1, 0, Reasons::Misc);
    assert!(l.locks(1).is_empty());
    assert_eq!(l.account(1).misc_frozen, 0);
    l.set_lock(1, 1, 30, Reasons::Misc);
    l.set_lock(1, 1, 0, Reasons::Misc);
    // a zero set leaves the existing lock in place
    assert_eq!(l.locks(1).len(), 1);
    assert_eq!(l.locks(1)[0].amount, 30);
}

#[test]
fn extend_lock_takes_the_larger_amount_and_widens_the_reasons() {
    let mut l = funded(&[(1, 100)]);
    l.set_lock(1, 1, 30, Reasons::Misc);
    l.extend_lock(1, 1, 20, Reasons::Fee);
    let locks = l.locks(1);
    assert_eq!(locks.len(), 1);
    assert_eq!(locks[0].amount, 30);
    assert_eq!(locks[0].reasons, Reasons::All);
    l.extend_lock(1, 1, 45, Reasons::All);
    assert_eq!(l.locks(1)[0].amount, 45);
    // extending a fresh id inserts it
    l.extend_lock(2, 1, 5, Reasons::Fee);
    assert_eq!(l.locks(1).len(), 2);
    assert_eq!(l.account(1).fee_frozen, 45);
}

#[test]
fn fee_lock_restricts_only_fee_withdrawals() {
    let mut l = funded(&[(1, 100)]);
    l.set_lock(1, 1, 60, Reasons::Fee);
    assert_eq!(l.usable_balance(1), 100);
    assert_eq!(l.usable_balance_for_fees(1), 40);
    let r = l.withdraw(1, 50, Reasons::Fee, ExistenceRequirement::AllowDeath);
    assert_eq!(r.unwrap_err(), Error::LiquidityRestrictions);
    let r = l.withdraw(1, 50, Reasons::Misc, ExistenceRequirement::AllowDeath);
    assert!(r.is_ok());
}

#[test]
fn an_account_with_locks_cannot_be_killed_by_transfer() {
    let mut l = funded(&[(1, 50), (2, 30)]);
    l.set_lock(1, 1, 1, Reasons::Misc);
    let r = l.transfer(1, 2, 45, ExistenceRequirement::AllowDeath, 1);
    assert_eq!(r, Err(Error::KeepAlive));
    l.remove_lock(1, 1);
    let r = l.transfer(1, 2, 45, ExistenceRequirement::AllowDeath, 1);
    assert!(r.is_ok());
    assert!(l.is_dead_account(1));
}

#[test]
fn reserve_moves_funds_and_respects_locks() {
    let mut l = funded(&[(1, 100)]);
    assert_eq!(l.reserve(1, 40), Ok(()));
    assert_eq!(l.free_balance(1), 60);
    assert_eq!(l.reserved_balance(1), 40);
    assert_eq!(l.total_balance(1), 100);
    assert_eq!(l.total_issuance(), 100);
    assert_eq!(l.reserve(1, 70), Err(Error::InsufficientBalance));
    l.set_lock(1, 1, 50, Reasons::Misc);
    assert_eq!(l.reserve(1, 20), Err(Error::LiquidityRestrictions));
    assert_eq!(l.reserve(1, 10), Ok(()));
}

#[test]
fn reserve_of_zero_is_a_no_op() {
    let mut l = funded(&[(1, 100)]);
    assert_eq!(l.reserve(1, 0), Ok(()));
    assert_eq!(l.free_balance(1), 100);
    assert_eq!(l.reserved_balance(1), 0);
    assert_eq!(l.unreserve(1, 0), 0);
    assert_eq!(l.free_balance(1), 100);
}

#[test]
fn unreserve_clamps_and_reports_the_remainder() {
    let mut l = funded(&[(1, 100)]);
    assert_eq!(l.reserve(1, 40), Ok(()));
    assert_eq!(l.unreserve(1, 25), 0);
    assert_eq!(l.free_balance(1), 85);
    assert_eq!(l.reserved_balance(1), 15);
    assert_eq!(l.unreserve(1, 50), 35);
    assert_eq!(l.free_balance(1), 100);
    assert_eq!(l.reserved_balance(1), 0);
}

#[test]
fn slash_reserved_clamps_to_what_is_reserved() {
    let mut l = funded(&[(1, 100)]);
    assert_eq!(l.reserve(1, 40), Ok(()));
    let (token, unmet) = l.slash_reserved(1, 55);
    assert_eq!(token.peek(), 40);
    assert_eq!(unmet, 15);
    assert_eq!(l.reserved_balance(1), 0);
    assert_eq!(l.free_balance(1), 60);
    l.consume_negative(token);
    assert_eq!(l.total_issuance(), 60);
}

#[test]
fn repatriate_reserved_moves_funds_to_the_beneficiary() {
    let mut l = funded(&[(1, 100), (2, 50)]);
    assert_eq!(l.reserve(1, 60), Ok(()));
    let rem = l.repatriate_reserved(1, 2, 45, Status::Free).unwrap();
    assert_eq!(rem, 0);
    assert_eq!(l.reserved_balance(1), 15);
    assert_eq!(l.free_balance(2), 95);
    let rem = l.repatriate_reserved(1, 2, 40, Status::Reserved).unwrap();
    assert_eq!(rem, 25);
    assert_eq!(l.reserved_balance(1), 0);
    assert_eq!(l.reserved_balance(2), 15);
    assert_eq!(l.total_issuance(), 150);
}

#[test]
fn repatriate_reserved_needs_a_live_beneficiary() {
    let mut l = funded(&[(1, 100)]);
    assert_eq!(l.reserve(1, 60), Ok(()));
    let r = l.repatriate_reserved(1, 9, 30, Status::Free);
    assert_eq!(r.unwrap_err(), Error::DeadAccount);
    assert_eq!(l.reserved_balance(1), 60);
}

#[test]
fn repatriate_reserved_to_oneself_releases_or_reports() {
    let mut l = funded(&[(1, 100)]);
    assert_eq!(l.reserve(1, 60), Ok(()));
    // to oneself as free balance this is an unreserve
    let rem = l.repatriate_reserved(1, 1, 70, Status::Free).unwrap();
    assert_eq!(rem, 10);
    assert_eq!(l.free_balance(1), 100);
    // to oneself as reserved balance nothing moves
    assert_eq!(l.reserve(1, 20), Ok(()));
    let rem = l.repatriate_reserved(1, 1, 30, Status::Reserved).unwrap();
    assert_eq!(rem, 10);
    assert_eq!(l.reserved_balance(1), 20);
}

#[test]
fn reasons_combine_widens_on_difference() {
    assert_eq!(Reasons::Misc.combine(Reasons::Misc), Reasons::Misc);
    assert_eq!(Reasons::Fee.combine(Reasons::Misc), Reasons::All);
    assert_eq!(Reasons::All.combine(Reasons::Fee), Reasons::All);
}

#[test]
fn reserve_rejects_reserved_overflow() {
    let mut l = Ledger::new(ED);
    l.set_balance(1, 50, u64::MAX - 5);
    assert_eq!(l.reserve(1, 10), Err(Error::Overflow));
    assert_eq!(l.free_balance(1), 50);
}

#[test]
fn locks_on_an_absent_account_still_overlay() {
    let mut l = Ledger::new(ED);
    l.set_lock(1, 9, 30, Reasons::Misc);
    // the lock list exists even though no balance record does
    assert_eq!(l.locks(9).len(), 1);
    assert!(l.is_dead_account(9));
    l.remove_lock(1, 9);
    assert!(l.locks(9).is_empty());
}

#[test]
fn zero_amount_extend_lock_is_a_no_op() {
    let mut l = funded(&[(1, 100)]);
    l.set_lock(1, 1, 30, Reasons::Misc);
    l.extend_lock(1, 1, 0, Reasons::All);
    let locks = l.locks(1);
    assert_eq!(locks.len(), 1);
    assert_eq!(locks[0].amount, 30);
    assert_eq!(locks[0].reasons, Reasons::Misc);
}
