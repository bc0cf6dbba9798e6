use spread_ledger::imbalance::{NegativeImbalance, PositiveImbalance, SignedImbalance};
use spread_ledger::ledger::Ledger;

#[test]
fn peek_and_zero_report_the_amount() {
    let p = PositiveImbalance::new(17);
    assert_eq!(p.peek(), 17);
    assert_eq!(PositiveImbalance::zero().peek(), 0);
    let n = NegativeImbalance::new(23);
    assert_eq!(n.peek(), 23);
    assert_eq!(NegativeImbalance::zero().peek(), 0);
}

#[test]
fn drop_zero_discards_only_empty_tokens() {
    assert!(PositiveImbalance::zero().drop_zero().is_ok());
    let back = PositiveImbalance::new(5).drop_zero().unwrap_err();
    assert_eq!(back.peek(), 5);
    assert!(NegativeImbalance::zero().drop_zero().is_ok());
    let back = NegativeImbalance::new(5).drop_zero().unwrap_err();
    assert_eq!(back.peek(), 5);
}

#[test]
fn split_partitions_without_loss() {
    let (a, b) = PositiveImbalance::new(100).split(30);
    assert_eq!((a.peek(), b.peek()), (30, 70));
    let (a, b) = PositiveImbalance::new(20).split(30);
    assert_eq!((a.peek(), b.peek()), (20, 0));
    let (a, b) = NegativeImbalance::new(100).split(100);
    assert_eq!((a.peek(), b.peek()), (100, 0));
}

#[test]
fn merge_and_subsume_add_the_amounts() {
    let merged = PositiveImbalance::new(40).merge(PositiveImbalance::new(2));
    assert_eq!(merged.peek(), 42);
    let mut held = NegativeImbalance::new(10);
    held.subsume(NegativeImbalance::new(5));
    assert_eq!(held.peek(), 15);
    // the sum clamps at the top of the balance domain
    let merged = PositiveImbalance::new(u64::MAX - 1).merge(PositiveImbalance::new(7));
    assert_eq!(merged.peek(), u64::MAX);
}

#[test]
fn offset_nets_to_the_dominant_sign() {
    let r = PositiveImbalance::new(50).offset(NegativeImbalance::new(20));
    assert_eq!(r.unwrap().peek(), 30);
    let r = PositiveImbalance::new(20).offset(NegativeImbalance::new(50));
    assert_eq!(r.unwrap_err().peek(), 30);
    let r = NegativeImbalance::new(50).offset(PositiveImbalance::new(20));
    assert_eq!(r.unwrap().peek(), 30);
    let r = NegativeImbalance::new(20).offset(PositiveImbalance::new(50));
    assert_eq!(r.unwrap_err().peek(), 30);
}

#[test]
fn consuming_tokens_squares_the_issuance() {
    let mut l = Ledger::new(1);
    l.consume_positive(PositiveImbalance::new(100));
    assert_eq!(l.total_issuance(), 100);
    l.consume_negative(NegativeImbalance::new(30));
    assert_eq!(l.total_issuance(), 70);
    l.consume_signed(SignedImbalance::Positive(PositiveImbalance::new(5)));
    assert_eq!(l.total_issuance(), 75);
    l.consume_signed(SignedImbalance::Negative(NegativeImbalance::new(80)));
    // consumption clamps at zero rather than wrapping
    assert_eq!(l.total_issuance(), 0);
}

#[test]
fn merging_split_parts_restores_the_whole() {
    let (a, b) = PositiveImbalance::new(64).split(21);
    assert_eq!(a.merge(b).peek(), 64);
}
