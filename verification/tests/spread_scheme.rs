use spread_ledger::ledger::Ledger;
use spread_ledger::notices::InspectorRemoved;
use spread_ledger::types::{AccountData, ExistenceRequirement};

const ED: u64 = 10;

fn funded(pairs: &[(u64, u64)]) -> Ledger {
    let mut l = Ledger::new(ED);
    for &(who, free) in pairs {
        let token = l.deposit_creating(who, free);
        l.consume_positive(token);
    }
    l
}

#[test]
fn link_if_absent_links_once_and_never_reparents() {
    let mut l = Ledger::new(ED);
    l.link_if_absent(5, Some(9), 100);
    let edge = l.spread_info(5).unwrap();
    assert_eq!(edge.from, Some(9));
    assert_eq!(edge.last_height, 100);
    // a later call with a different referrer is silently ignored
    l.link_if_absent(5, Some(77), 200);
    let edge = l.spread_info(5).unwrap();
    assert_eq!(edge.from, Some(9));
    assert_eq!(edge.last_height, 100);
}

#[test]
fn touch_moves_the_clock_and_returns_the_referrer() {
    let mut l = Ledger::new(ED);
    l.link_if_absent(5, Some(9), 100);
    let referrer = l.touch(5, 140);
    assert_eq!(referrer, Some(9));
    let edge = l.spread_info(5).unwrap();
    assert_eq!(edge.from, Some(9));
    assert_eq!(edge.last_height, 140);
}

#[test]
fn spread_transfer_links_a_new_destination() {
    // referrer R exists and is linked rootless; C is new
    let mut l = funded(&[(2, 100)]);
    l.link_if_absent(7, None, 0);
    let r = l.spread_transfer(2, 3, 7, 20, 50);
    assert!(r.is_ok());
    assert_eq!(l.free_balance(3), 20);
    assert_eq!(l.free_balance(2), 80);
    let edge = l.spread_info(3).unwrap();
    assert_eq!(edge.from, Some(7));
    assert_eq!(edge.last_height, 50);
    // linking created the referrer's zeroed entry for the new referee
    assert_eq!(l.commission_owed(7, 3), 0);
}

#[test]
fn spread_transfer_with_unknown_referrer_moves_nothing() {
    let mut l = funded(&[(2, 100)]);
    let r = l.spread_transfer(2, 3, 7, 20, 50);
    assert!(r.is_ok());
    assert_eq!(l.free_balance(2), 100);
    assert!(l.is_dead_account(3));
    assert!(!l.is_linked(3));
}

#[test]
fn spread_transfer_to_linked_destination_ignores_the_referrer_argument() {
    let mut l = funded(&[(2, 100), (3, 40)]);
    l.link_if_absent(7, None, 0);
    l.link_if_absent(8, None, 0);
    l.link_if_absent(3, Some(7), 0);
    let r = l.spread_transfer(2, 3, 8, 20, 40);
    assert!(r.is_ok());
    let edge = l.spread_info(3).unwrap();
    assert_eq!(edge.from, Some(7));
    // the flush before the transfer used 40 free over 40 blocks: two minutes
    assert_eq!(l.commission_owed(7, 3), 80);
    assert_eq!(l.free_balance(3), 60);
}

#[test]
fn accrual_grows_with_minutes_and_balance() {
    let mut l = funded(&[(5, 1000)]);
    l.link_if_absent(9, None, 0);
    l.link_if_absent(5, Some(9), 100);
    // 20 blocks of 3 seconds are one whole minute
    let done = l.spread_retun(5, 120, 0);
    assert!(done);
    assert_eq!(l.commission_owed(9, 5), 1000);
    assert_eq!(l.spread_info(5).unwrap().last_height, 120);
}

#[test]
fn accrual_within_a_minute_window_adds_nothing() {
    let mut l = funded(&[(5, 500)]);
    l.link_if_absent(9, None, 0);
    l.link_if_absent(5, Some(9), 100);
    // 19 blocks of 3 seconds stay under one minute: rate truncates to zero
    let done = l.spread_retun(5, 119, 0);
    assert!(done);
    assert_eq!(l.commission_owed(9, 5), 0);
    // the clock moved anyway, so the next call still sees a short window
    let done = l.spread_retun(5, 130, 0);
    assert!(done);
    assert_eq!(l.commission_owed(9, 5), 0);
    // a full minute since the last touch finally accrues
    let done = l.spread_retun(5, 150, 0);
    assert!(done);
    assert_eq!(l.commission_owed(9, 5), 500);
}

#[test]
fn accrual_for_a_root_account_goes_nowhere() {
    let mut l = funded(&[(5, 500)]);
    l.link_if_absent(5, None, 0);
    let done = l.spread_retun(5, 1000, 0);
    assert!(done);
    assert_eq!(l.commission_total(5), 0);
    assert_eq!(l.spread_info(5).unwrap().last_height, 1000);
}

#[test]
fn commission_total_sums_all_referees() {
    let mut l = funded(&[(5, 300), (6, 200)]);
    l.link_if_absent(9, None, 0);
    l.link_if_absent(5, Some(9), 0);
    l.link_if_absent(6, Some(9), 0);
    l.spread_retun(5, 20, 0);
    l.spread_retun(6, 40, 0);
    assert_eq!(l.commission_owed(9, 5), 300);
    assert_eq!(l.commission_owed(9, 6), 400);
    assert_eq!(l.commission_total(9), 700);
    assert_eq!(l.commission_total(5), 0);
}

#[test]
fn commission_withdrawal_pays_sixty_percent_and_rolls_up_forty() {
    // R (id 7) has accrued entries totaling 1000 and is itself linked to R2
    let mut l = funded(&[(7, 100), (5, 1000)]);
    l.link_if_absent(8, None, 0);
    l.link_if_absent(7, Some(8), 0);
    l.link_if_absent(5, Some(7), 0);
    l.spread_retun(5, 20, 0);
    assert_eq!(l.commission_total(7), 1000);
    let issuance_before = l.total_issuance();
    // withdraw at the height R was last touched: no time accrual on top
    l.touch(7, 500);
    l.spread_return(7, 500);
    // sixty percent minted into R's own free balance
    assert_eq!(l.free_balance(7), 700);
    assert_eq!(l.total_issuance(), issuance_before + 600);
    // forty percent rolled up into R2's entry for R
    assert_eq!(l.commission_owed(8, 7), 400);
    // the withdrawn entries are left as they are
    assert_eq!(l.commission_owed(7, 5), 1000);
}

#[test]
fn commission_withdrawal_without_referrer_forfeits_the_roll_up() {
    let mut l = funded(&[(7, 100), (5, 1000)]);
    l.link_if_absent(7, None, 0);
    l.link_if_absent(5, Some(7), 0);
    l.spread_retun(5, 20, 0);
    l.spread_return(7, 20);
    assert_eq!(l.free_balance(7), 700);
    // the forty percent went nowhere: R has no upstream entry
    assert_eq!(l.commission_total(7), 1000);
    assert_eq!(l.commission_owed(7, 7), 0);
}

#[test]
fn commission_withdrawal_with_nothing_owed_is_a_no_op() {
    let mut l = funded(&[(7, 100)]);
    l.link_if_absent(7, None, 0);
    l.spread_return(7, 50);
    assert_eq!(l.free_balance(7), 100);
    assert_eq!(l.total_issuance(), 100);
}

#[test]
fn commission_withdrawal_rounds_percentages_down() {
    let mut l = funded(&[(7, 100), (5, 33)]);
    l.link_if_absent(8, None, 0);
    l.link_if_absent(7, Some(8), 0);
    l.link_if_absent(5, Some(7), 0);
    l.spread_retun(5, 20, 0);
    assert_eq!(l.commission_total(7), 33);
    l.touch(7, 20);
    l.spread_return(7, 20);
    assert_eq!(l.free_balance(7), 119);  // 100 + floor(33 * 60 / 100)
    assert_eq!(l.commission_owed(8, 7), 13);  // floor(33 * 40 / 100)
}

#[test]
fn spread_transfer_flushes_the_sender_side_too() {
    let mut l = funded(&[(2, 600), (3, 40)]);
    l.link_if_absent(9, None, 0);
    l.link_if_absent(2, Some(9), 0);
    // sender is linked: its accrual is settled before the funds move,
    // so the fee is computed on the pre-transfer balance
    let r = l.spread_transfer(2, 3, 9, 100, 20);
    assert!(r.is_ok());
    assert_eq!(l.commission_owed(9, 2), 600);
    assert_eq!(l.free_balance(2), 500);
    assert_eq!(l.free_balance(3), 140);
}

#[test]
fn spread_transfer_failure_leaves_everything_unchanged() {
    let mut l = funded(&[(2, 50)]);
    l.link_if_absent(9, None, 0);
    l.link_if_absent(2, Some(9), 0);
    let r = l.spread_transfer(2, 3, 9, 60, 20);
    assert!(r.is_err());
    assert_eq!(l.free_balance(2), 50);
    assert_eq!(l.commission_owed(9, 2), 0);
    assert_eq!(l.spread_info(2).unwrap().last_height, 0);
    assert!(!l.is_linked(3));
}

#[test]
fn mutating_operations_never_change_a_stored_referrer() {
    let mut l = funded(&[(2, 100)]);
    l.link_if_absent(9, None, 0);
    l.link_if_absent(2, Some(9), 0);
    l.spread_transfer(2, 3, 9, 30, 10).unwrap();
    l.transfer(2, 3, 10, ExistenceRequirement::AllowDeath, 11).unwrap();
    l.spread_return(2, 12);
    assert_eq!(l.spread_info(2).unwrap().from, Some(9));
    assert_eq!(l.spread_info(3).unwrap().from, Some(9));
    assert_eq!(l.spread_info(9).unwrap().from, None);
}

#[test]
fn zero_value_operations_leave_the_commission_ledger_alone() {
    let mut l = funded(&[(2, 100), (3, 40)]);
    l.link_if_absent(9, None, 0);
    l.link_if_absent(2, Some(9), 0);
    l.transfer(2, 3, 0, ExistenceRequirement::AllowDeath, 5).unwrap();
    l.reserve(2, 0).unwrap();
    assert_eq!(l.unreserve(2, 0), 0);
    let (token, unmet) = l.slash(2, 0);
    assert_eq!((token.peek(), unmet), (0, 0));
    assert_eq!(l.commission_total(9), 0);
    assert_eq!(l.free_balance(2), 100);
}

#[test]
fn inspector_removal_notice_carries_the_account() {
    let notice = InspectorRemoved { inspector: 42 };
    assert_eq!(notice.inspector, 42);
}

#[test]
fn dust_invariant_holds_after_every_operation() {
    let mut l = Ledger::new(ED);
    let t = l.deposit_creating(1, 50);
    l.consume_positive(t);
    l.transfer(1, 2, 45, ExistenceRequirement::AllowDeath, 1).unwrap();
    let (s, _) = l.slash(2, 40);
    l.consume_negative(s);
    l.mutate_account(
        3,
        AccountData { free: 7, reserved: 0, misc_frozen: 0, fee_frozen: 0 },
    );
    for a in 1..=3u64 {
        let total = l.free_balance(a) as u128 + l.reserved_balance(a) as u128;
        assert!(total == 0 || total >= ED as u128);
    }
}
