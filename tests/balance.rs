use finance_ledger::balance::{apply_delta, delta_for};
use finance_ledger::model::{LedgerError, TxKind};

#[test]
fn deltas_have_the_sign_of_their_kind() {
    assert_eq!(delta_for(TxKind::Expense, 200), -200);
    assert_eq!(delta_for(TxKind::Income, 500), 500);
}

#[test]
fn apply_delta_adds_and_checks_range() {
    assert_eq!(apply_delta(0, -200), Ok(-200));
    assert_eq!(apply_delta(-200, 200), Ok(0));
    assert_eq!(apply_delta(i64::MAX, 1), Err(LedgerError::OutOfRange));
    assert_eq!(apply_delta(i64::MIN, -1), Err(LedgerError::OutOfRange));
}
