use spread_ledger::ledger::Ledger;
use spread_ledger::imbalance::SignedImbalance;
use spread_ledger::types::{AccountData, Error, ExistenceRequirement, Reasons};

const ED: u64 = 10;

fn funded(pairs: &[(u64, u64)]) -> Ledger {
    let mut l = Ledger::new(ED);
    for &(who, free) in pairs {
        let token = l.deposit_creating(who, free);
        l.consume_positive(token);
    }
    l
}

#[test]
fn new_ledger_is_empty() {
    let l = Ledger::new(ED);
    assert_eq!(l.total_issuance(), 0);
    assert_eq!(l.minimum_balance(), ED);
    assert!(l.is_dead_account(1));
    assert_eq!(l.free_balance(1), 0);
}

#[test]
fn deposit_below_existential_deposit_is_swept_as_dust() {
    let mut l = Ledger::new(ED);
    let outcome = l.mutate_account(
        1,
        AccountData { free: 5, reserved: 0, misc_frozen: 0, fee_frozen: 0 },
    );
    assert_eq!(outcome.dust, Some(5));
    assert!(l.is_dead_account(1));
    assert_eq!(l.free_balance(1), 0);
}

#[test]
fn transfer_kills_source_and_sweeps_dust() {
    let mut l = funded(&[(1, 50)]);
    assert_eq!(l.total_issuance(), 50);
    let r = l.transfer(1, 2, 45, ExistenceRequirement::AllowDeath, 7);
    assert!(r.is_ok());
    assert!(l.is_dead_account(1));
    assert_eq!(l.free_balance(2), 45);
    // the remaining 5 were below the deposit and left the books as dust
    assert_eq!(l.total_issuance(), 45);
    // the destination got a rootless referral edge at its first contact
    let edge = l.spread_info(2).unwrap();
    assert_eq!(edge.from, None);
    assert_eq!(edge.last_height, 7);
}

#[test]
fn transfer_of_zero_changes_no_balance_and_never_fails() {
    let mut l = funded(&[(1, 50), (2, 30)]);
    let r = l.transfer(1, 2, 0, ExistenceRequirement::KeepAlive, 3);
    assert!(r.is_ok());
    assert_eq!(l.free_balance(1), 50);
    assert_eq!(l.free_balance(2), 30);
    assert_eq!(l.total_issuance(), 80);
}

#[test]
fn transfer_rejects_insufficient_balance() {
    let mut l = funded(&[(1, 50)]);
    let r = l.transfer(1, 2, 60, ExistenceRequirement::AllowDeath, 1);
    assert_eq!(r, Err(Error::InsufficientBalance));
    assert_eq!(l.free_balance(1), 50);
}

#[test]
fn transfer_rejects_dust_destination() {
    let mut l = funded(&[(1, 50)]);
    let r = l.transfer(1, 2, 5, ExistenceRequirement::AllowDeath, 1);
    assert_eq!(r, Err(Error::ExistentialDeposit));
    assert_eq!(l.free_balance(1), 50);
    assert!(l.is_dead_account(2));
}

#[test]
fn transfer_keep_alive_refuses_to_kill_the_source() {
    let mut l = funded(&[(1, 50), (2, 30)]);
    let r = l.transfer_keep_alive(1, 2, 45, 1);
    assert_eq!(r, Err(Error::KeepAlive));
    assert_eq!(l.free_balance(1), 50);
    assert_eq!(l.free_balance(2), 30);
    // with death allowed the same transfer goes through
    let r2 = l.transfer(1, 2, 45, ExistenceRequirement::AllowDeath, 1);
    assert!(r2.is_ok());
    assert_eq!(l.free_balance(2), 75);
}

#[test]
fn force_transfer_moves_funds_without_linking() {
    let mut l = funded(&[(1, 50)]);
    let r = l.force_transfer(1, 2, 20);
    assert_eq!(r, Ok(()));
    assert_eq!(l.free_balance(1), 30);
    assert_eq!(l.free_balance(2), 20);
    assert!(!l.is_linked(2));
}

#[test]
fn self_transfer_is_a_no_op() {
    let mut l = funded(&[(1, 50)]);
    let r = l.transfer(1, 1, 40, ExistenceRequirement::AllowDeath, 1);
    assert!(r.is_ok());
    assert_eq!(l.free_balance(1), 50);
}

#[test]
fn deposit_into_existing_requires_a_live_account() {
    let mut l = Ledger::new(ED);
    assert_eq!(l.deposit_into_existing(1, 25).unwrap_err(), Error::DeadAccount);
    let mut l = funded(&[(1, 40)]);
    let token = l.deposit_into_existing(1, 25).unwrap();
    assert_eq!(token.peek(), 25);
    l.consume_positive(token);
    assert_eq!(l.free_balance(1), 65);
    assert_eq!(l.total_issuance(), 65);
}

#[test]
fn deposit_into_existing_rejects_overflow() {
    let mut l = Ledger::new(ED);
    l.set_balance(1, u64::MAX - 5, 0);
    let r = l.deposit_into_existing(1, 10);
    assert_eq!(r.unwrap_err(), Error::Overflow);
    assert_eq!(l.free_balance(1), u64::MAX - 5);
}

#[test]
fn deposit_creating_ignores_amounts_below_the_deposit() {
    let mut l = Ledger::new(ED);
    let token = l.deposit_creating(1, 9);
    assert_eq!(token.peek(), 0);
    assert!(l.is_dead_account(1));
    let token = l.deposit_creating(1, 10);
    assert_eq!(token.peek(), 10);
    assert_eq!(l.free_balance(1), 10);
}

#[test]
fn withdraw_debits_free_balance() {
    let mut l = funded(&[(1, 100)]);
    let token = l
        .withdraw(1, 30, Reasons::Misc, ExistenceRequirement::AllowDeath)
        .unwrap();
    assert_eq!(token.peek(), 30);
    l.consume_negative(token);
    assert_eq!(l.free_balance(1), 70);
    assert_eq!(l.total_issuance(), 70);
}

#[test]
fn withdraw_honours_keep_alive() {
    let mut l = funded(&[(1, 100)]);
    let r = l.withdraw(1, 95, Reasons::Misc, ExistenceRequirement::KeepAlive);
    assert_eq!(r.unwrap_err(), Error::KeepAlive);
    let r = l.withdraw(1, 95, Reasons::Misc, ExistenceRequirement::AllowDeath);
    assert!(r.is_ok());
    assert!(l.is_dead_account(1));
}

#[test]
fn slash_takes_free_before_reserved_and_reports_the_shortfall() {
    let mut l = funded(&[(1, 100)]);
    assert_eq!(l.reserve(1, 40), Ok(()));
    // free 60, reserved 40; slash 80 takes all free and 20 reserved
    let (token, unmet) = l.slash(1, 80);
    assert_eq!(token.peek(), 80);
    assert_eq!(unmet, 0);
    assert_eq!(l.free_balance(1), 0);
    assert_eq!(l.reserved_balance(1), 20);
    l.consume_negative(token);
    assert_eq!(l.total_issuance(), 20);
    // a slash beyond everything reports what could not be taken
    let (token, unmet) = l.slash(1, 50);
    assert_eq!(token.peek(), 20);
    assert_eq!(unmet, 30);
    assert!(l.is_dead_account(1));
}

#[test]
fn slash_of_zero_is_a_no_op() {
    let mut l = funded(&[(1, 100)]);
    let (token, unmet) = l.slash(1, 0);
    assert_eq!(token.peek(), 0);
    assert_eq!(unmet, 0);
    assert_eq!(l.free_balance(1), 100);
    assert_eq!(l.commission_total(1), 0);
}

#[test]
fn set_balance_overwrites_and_adjusts_issuance() {
    let mut l = funded(&[(1, 100)]);
    assert_eq!(l.total_issuance(), 100);
    let (free, reserved) = l.set_balance(1, 60, 20);
    assert_eq!((free, reserved), (60, 20));
    assert_eq!(l.free_balance(1), 60);
    assert_eq!(l.reserved_balance(1), 20);
    // issuance followed the overwrite: -40 on free, +20 on reserved
    assert_eq!(l.total_issuance(), 80);
}

#[test]
fn set_balance_wipes_a_sum_below_the_deposit() {
    let mut l = funded(&[(1, 100)]);
    let (free, reserved) = l.set_balance(1, 4, 3);
    assert_eq!((free, reserved), (0, 0));
    assert!(l.is_dead_account(1));
    assert_eq!(l.total_issuance(), 0);
}

#[test]
fn make_free_balance_be_returns_the_signed_difference() {
    let mut l = funded(&[(1, 100)]);
    match l.make_free_balance_be(1, 130) {
        SignedImbalance::Positive(p) => assert_eq!(p.peek(), 30),
        SignedImbalance::Negative(_) => panic!("expected a positive imbalance"),
    }
    assert_eq!(l.free_balance(1), 130);
    match l.make_free_balance_be(1, 50) {
        SignedImbalance::Negative(n) => assert_eq!(n.peek(), 80),
        SignedImbalance::Positive(_) => panic!("expected a negative imbalance"),
    }
    assert_eq!(l.free_balance(1), 50);
    // forcing a new account below the deposit does nothing
    let mut l2 = Ledger::new(ED);
    match l2.make_free_balance_be(9, 5) {
        SignedImbalance::Positive(p) => assert_eq!(p.peek(), 0),
        SignedImbalance::Negative(_) => panic!("expected a zero positive imbalance"),
    }
    assert!(l2.is_dead_account(9));
}

#[test]
fn burn_and_issue_clamp_to_what_exists() {
    let mut l = funded(&[(1, 100)]);
    let p = l.burn(30);
    assert_eq!(p.peek(), 30);
    assert_eq!(l.total_issuance(), 70);
    let p = l.burn(200);
    assert_eq!(p.peek(), 70);
    assert_eq!(l.total_issuance(), 0);
    let n = l.issue(25);
    assert_eq!(n.peek(), 25);
    assert_eq!(l.total_issuance(), 25);
    l.set_balance(1, 0, 0);
    let mut l2 = Ledger::new(0);
    let big = l2.issue(u64::MAX);
    assert_eq!(big.peek(), u64::MAX);
    let more = l2.issue(10);
    assert_eq!(more.peek(), 0);
    assert_eq!(l2.total_issuance(), u64::MAX);
}

#[test]
fn can_slash_and_can_reserve_report_usable_funds() {
    let mut l = funded(&[(1, 100)]);
    assert!(l.can_slash(1, 100));
    assert!(!l.can_slash(1, 101));
    assert!(l.can_slash(2, 0));
    assert!(l.can_reserve(1, 100));
    l.set_lock(7, 1, 40, Reasons::Misc);
    assert!(l.can_reserve(1, 60));
    assert!(!l.can_reserve(1, 61));
}

#[test]
fn on_killed_account_sweeps_the_whole_total() {
    let mut l = funded(&[(1, 100)]);
    assert_eq!(l.reserve(1, 30), Ok(()));
    let dust = l.on_killed_account(1);
    assert_eq!(dust, Some(100));
    assert!(l.is_dead_account(1));
    assert_eq!(l.total_issuance(), 0);
    assert_eq!(l.on_killed_account(1), None);
}

#[test]
fn mutate_account_reports_endowment() {
    let mut l = Ledger::new(ED);
    let outcome = l.mutate_account(
        1,
        AccountData { free: 25, reserved: 0, misc_frozen: 0, fee_frozen: 0 },
    );
    assert_eq!(outcome.endowed, Some(25));
    assert_eq!(outcome.dust, None);
    let outcome = l.mutate_account(
        1,
        AccountData { free: 30, reserved: 0, misc_frozen: 0, fee_frozen: 0 },
    );
    assert_eq!(outcome.endowed, None);
    assert_eq!(l.free_balance(1), 30);
}

#[test]
fn conservation_holds_across_a_mixed_sequence() {
    let mut l = Ledger::new(ED);
    let t1 = l.deposit_creating(1, 500);
    l.consume_positive(t1);
    let t2 = l.deposit_creating(2, 300);
    l.consume_positive(t2);
    l.transfer(1, 3, 120, ExistenceRequirement::AllowDeath, 1).unwrap();
    l.reserve(2, 50).unwrap();
    let (slashed, _) = l.slash(3, 20);
    l.consume_negative(slashed);
    let w = l
        .withdraw(1, 80, Reasons::Misc, ExistenceRequirement::AllowDeath)
        .unwrap();
    l.consume_negative(w);
    let unmet = l.unreserve(2, 70);
    assert_eq!(unmet, 20);
    let sum: u64 = [1, 2, 3]
        .iter()
        .map(|&a| l.free_balance(a) + l.reserved_balance(a))
        .sum();
    assert_eq!(l.total_issuance(), sum);
}

#[test]
fn transfer_rejects_destination_overflow() {
    let mut l = Ledger::new(ED);
    l.set_balance(1, 50, 0);
    l.set_balance(2, u64::MAX - 5, 0);
    let r = l.transfer(1, 2, 10, ExistenceRequirement::AllowDeath, 1);
    assert_eq!(r, Err(Error::Overflow));
    assert_eq!(l.free_balance(1), 50);
    assert_eq!(l.free_balance(2), u64::MAX - 5);
}

#[test]
fn ensure_can_withdraw_checks_the_frozen_floor() {
    let mut l = Ledger::new(ED);
    l.set_balance(1, 100, 0);
    l.set_lock(3, 1, 60, Reasons::Misc);
    assert!(l.ensure_can_withdraw(1, 30, Reasons::Misc, 70).is_ok());
    assert_eq!(
        l.ensure_can_withdraw(1, 50, Reasons::Misc, 50).unwrap_err(),
        Error::LiquidityRestrictions
    );
    // a zero amount always passes, whatever would be left
    assert!(l.ensure_can_withdraw(1, 0, Reasons::Misc, 0).is_ok());
}
