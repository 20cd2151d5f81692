use finance_ledger::ledger::{
    add_expense, del_expense, get_accounts, get_expense, load_account, load_category,
    load_transaction, Ledger,
};
use finance_ledger::model::{AccountRow, Accounts, CategoryRow, LedgerError, TxKind, TxRow};

fn acc(id: i64, user_id: i64, name: &str, balance: i64) -> AccountRow {
    AccountRow { id, user_id, name: name.to_string(), balance }
}

fn cat(id: i64, user_id: i64, name: &str) -> CategoryRow {
    CategoryRow { id, user_id, name: name.to_string(), description: String::new() }
}

fn tx(id: i64, kind: TxKind, account_id: i64, category_id: i64, amount: i64) -> TxRow {
    TxRow { id, user_id: 1, kind, account_id, category_id, amount }
}

fn loaded() -> Ledger {
    let mut l = Ledger::new();
    load_account(&mut l, acc(4, 1, "cash", -200)).unwrap();
    load_category(&mut l, cat(2, 1, "food")).unwrap();
    load_transaction(&mut l, tx(7, TxKind::Expense, 4, 2, 200)).unwrap();
    l
}

#[test]
fn loaded_rows_keep_their_ids_and_balances() {
    let l = loaded();
    assert_eq!(l.next_id(), 8);
    let accs = get_accounts(&l, 1);
    assert_eq!(accs[0].id, Some(4));
    assert_eq!(accs[0].balance, -200);
    let exps = get_expense(&l, 1);
    assert_eq!(exps.len(), 1);
    assert_eq!(exps[0].id, 7);
    assert_eq!(exps[0].account, "cash");
}

#[test]
fn loaded_transactions_can_be_deleted() {
    let mut l = loaded();
    del_expense(&mut l, 7).unwrap();
    assert_eq!(get_accounts(&l, 1)[0].balance, 0);
}

#[test]
fn new_ids_follow_loaded_ones() {
    let mut l = loaded();
    let id = Accounts { id: None, name: "card".to_string(), balance: 0, user_id: 1 }
        .add(&mut l)
        .unwrap();
    assert_eq!(id, 8);
    add_expense(&mut l, 1, 5, "food".to_string(), "card".to_string()).unwrap();
    assert_eq!(get_expense(&l, 1)[1].id, 9);
}

#[test]
fn expense_and_income_may_share_an_id() {
    let mut l = loaded();
    assert_eq!(load_transaction(&mut l, tx(7, TxKind::Income, 4, 2, 50)), Ok(()));
    assert_eq!(
        load_transaction(&mut l, tx(7, TxKind::Expense, 4, 2, 50)),
        Err(LedgerError::Conflict)
    );
}

#[test]
fn bad_rows_are_refused() {
    let mut l = loaded();
    assert_eq!(load_account(&mut l, acc(0, 1, "x", 0)), Err(LedgerError::OutOfRange));
    assert_eq!(load_account(&mut l, acc(i64::MAX, 1, "x", 0)), Err(LedgerError::OutOfRange));
    assert_eq!(load_account(&mut l, acc(4, 1, "other", 0)), Err(LedgerError::Conflict));
    assert_eq!(load_account(&mut l, acc(5, 1, "cash", 0)), Err(LedgerError::Conflict));
    assert_eq!(load_category(&mut l, cat(-3, 1, "y")), Err(LedgerError::OutOfRange));
    assert_eq!(load_category(&mut l, cat(2, 1, "y")), Err(LedgerError::Conflict));
    assert_eq!(load_category(&mut l, cat(3, 1, "food")), Err(LedgerError::Conflict));
    assert_eq!(
        load_transaction(&mut l, tx(9, TxKind::Income, 4, 2, 0)),
        Err(LedgerError::OutOfRange)
    );
    assert_eq!(
        load_transaction(&mut l, tx(9, TxKind::Income, 99, 2, 10)),
        Err(LedgerError::NotFound)
    );
    assert_eq!(
        load_transaction(&mut l, tx(9, TxKind::Income, 4, 99, 10)),
        Err(LedgerError::NotFound)
    );
    assert_eq!(l.next_id(), 8);
    assert_eq!(get_accounts(&l, 1).len(), 1);
}
