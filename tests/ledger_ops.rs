use finance_ledger::ledger::{
    add_expense, add_income, del_account, del_category, del_expense, del_income, edit_account,
    edit_category, get_accounts, get_categories, get_expense, get_income, total_balance, Ledger,
};
use finance_ledger::model::{Accounts, Categories, LedgerError};

fn account(user_id: i64, name: &str, balance: i64) -> Accounts {
    Accounts { id: None, name: name.to_string(), balance, user_id }
}

fn category(user_id: i64, name: &str, description: &str) -> Categories {
    Categories { id: None, name: name.to_string(), user_id, description: description.to_string() }
}

fn balance_of(ledger: &Ledger, user_id: i64, name: &str) -> i64 {
    get_accounts(ledger, user_id).into_iter().find(|a| a.name == name).unwrap().balance
}

fn setup() -> Ledger {
    let mut l = Ledger::new();
    account(1, "cash", 0).add(&mut l).unwrap();
    category(1, "food", "groceries").add(&mut l).unwrap();
    category(1, "salary", "monthly pay").add(&mut l).unwrap();
    l
}

#[test]
fn cash_expense_delete_income_scenario() {
    let mut l = setup();
    add_expense(&mut l, 1, 200, "food".to_string(), "cash".to_string()).unwrap();
    assert_eq!(balance_of(&l, 1, "cash"), -200);
    let exps = get_expense(&l, 1);
    assert_eq!(exps.len(), 1);
    assert_eq!(exps[0].amount, 200);
    assert_eq!(exps[0].account, "cash");
    assert_eq!(exps[0].category, "food");
    del_expense(&mut l, exps[0].id).unwrap();
    assert_eq!(balance_of(&l, 1, "cash"), 0);
    assert_eq!(get_expense(&l, 1).len(), 0);
    add_income(&mut l, 1, 500, "salary".to_string(), "cash".to_string()).unwrap();
    assert_eq!(balance_of(&l, 1, "cash"), 500);
    assert_eq!(get_income(&l, 1).len(), 1);
}

#[test]
fn balance_tracks_net_of_transactions() {
    let mut l = setup();
    add_income(&mut l, 1, 1000, "salary".to_string(), "cash".to_string()).unwrap();
    add_expense(&mut l, 1, 300, "food".to_string(), "cash".to_string()).unwrap();
    add_expense(&mut l, 1, 50, "food".to_string(), "cash".to_string()).unwrap();
    assert_eq!(balance_of(&l, 1, "cash"), 650);
    let first = get_expense(&l, 1)[0].id;
    del_expense(&mut l, first).unwrap();
    assert_eq!(balance_of(&l, 1, "cash"), 950);
    let inc = get_income(&l, 1)[0].id;
    del_income(&mut l, inc).unwrap();
    assert_eq!(balance_of(&l, 1, "cash"), -50);
}

#[test]
fn income_round_trip_restores_balance() {
    let mut l = setup();
    account(1, "card", 75).add(&mut l).unwrap();
    add_income(&mut l, 1, 120, "salary".to_string(), "card".to_string()).unwrap();
    assert_eq!(balance_of(&l, 1, "card"), 195);
    let id = get_income(&l, 1)[0].id;
    del_income(&mut l, id).unwrap();
    assert_eq!(balance_of(&l, 1, "card"), 75);
    assert!(get_income(&l, 1).is_empty());
}

#[test]
fn unknown_names_change_nothing() {
    let mut l = setup();
    add_expense(&mut l, 1, 10, "food".to_string(), "cash".to_string()).unwrap();
    let r = add_expense(&mut l, 1, 200, "travel".to_string(), "cash".to_string());
    assert_eq!(r, Err(LedgerError::NotFound));
    let r = add_income(&mut l, 1, 200, "salary".to_string(), "bank".to_string());
    assert_eq!(r, Err(LedgerError::NotFound));
    assert_eq!(balance_of(&l, 1, "cash"), -10);
    assert_eq!(get_expense(&l, 1).len(), 1);
    assert!(get_income(&l, 1).is_empty());
}

#[test]
fn names_resolve_within_the_user_only() {
    let mut l = setup();
    let r = add_expense(&mut l, 2, 10, "food".to_string(), "cash".to_string());
    assert_eq!(r, Err(LedgerError::NotFound));
    assert_eq!(balance_of(&l, 1, "cash"), 0);
}

#[test]
fn listings_are_scoped_to_their_user() {
    let mut l = setup();
    account(2, "cash", 40).add(&mut l).unwrap();
    category(2, "food", "shared name").add(&mut l).unwrap();
    add_expense(&mut l, 1, 5, "food".to_string(), "cash".to_string()).unwrap();
    add_expense(&mut l, 2, 7, "food".to_string(), "cash".to_string()).unwrap();
    let a1 = get_accounts(&l, 1);
    let a2 = get_accounts(&l, 2);
    assert_eq!(a1.len(), 1);
    assert_eq!(a2.len(), 1);
    assert_eq!(a1[0].balance, -5);
    assert_eq!(a2[0].balance, 33);
    assert!(get_categories(&l, 2).iter().all(|c| c.user_id == 2));
    assert_eq!(get_categories(&l, 1).len(), 2);
    let e2 = get_expense(&l, 2);
    assert_eq!(e2.len(), 1);
    assert_eq!(e2[0].amount, 7);
    assert_eq!(e2[0].user_id, 2);
    assert!(get_accounts(&l, 3).is_empty());
}

#[test]
fn edited_balance_is_the_new_base() {
    let mut l = setup();
    add_expense(&mut l, 1, 200, "food".to_string(), "cash".to_string()).unwrap();
    let id = get_accounts(&l, 1)[0].id.unwrap();
    edit_account(&mut l, id, "wallet".to_string(), 1000).unwrap();
    assert_eq!(balance_of(&l, 1, "wallet"), 1000);
    add_expense(&mut l, 1, 100, "food".to_string(), "wallet".to_string()).unwrap();
    assert_eq!(balance_of(&l, 1, "wallet"), 900);
    let first = get_expense(&l, 1)[0].id;
    del_expense(&mut l, first).unwrap();
    assert_eq!(balance_of(&l, 1, "wallet"), 1100);
}

#[test]
fn duplicate_names_conflict() {
    let mut l = setup();
    assert_eq!(account(1, "cash", 5).add(&mut l), Err(LedgerError::Conflict));
    assert_eq!(category(1, "food", "again").add(&mut l), Err(LedgerError::Conflict));
    assert!(account(2, "cash", 5).add(&mut l).is_ok());
    let card = account(1, "card", 0).add(&mut l).unwrap();
    assert_eq!(edit_account(&mut l, card, "cash".to_string(), 1), Err(LedgerError::Conflict));
    let food = get_categories(&l, 1)[0].id.unwrap();
    assert_eq!(
        edit_category(&mut l, food, "salary".to_string(), "x".to_string()),
        Err(LedgerError::Conflict)
    );
}

#[test]
fn created_ids_are_fresh_and_increasing() {
    let mut l = Ledger::new();
    let a = account(1, "cash", 0).add(&mut l).unwrap();
    let c = category(1, "food", "").add(&mut l).unwrap();
    assert_eq!(a, 1);
    assert_eq!(c, 2);
    assert_eq!(get_accounts(&l, 1)[0].id, Some(1));
}

#[test]
fn edit_category_overwrites_fields() {
    let mut l = setup();
    let food = get_categories(&l, 1)[0].id.unwrap();
    edit_category(&mut l, food, "meals".to_string(), "eating out".to_string()).unwrap();
    let cats = get_categories(&l, 1);
    assert_eq!(cats[0].name, "meals");
    assert_eq!(cats[0].description, "eating out");
    add_expense(&mut l, 1, 3, "meals".to_string(), "cash".to_string()).unwrap();
    assert_eq!(get_expense(&l, 1)[0].category, "meals");
}

#[test]
fn missing_ids_are_not_found() {
    let mut l = setup();
    assert_eq!(del_expense(&mut l, 99), Err(LedgerError::NotFound));
    assert_eq!(del_income(&mut l, 99), Err(LedgerError::NotFound));
    assert_eq!(del_account(&mut l, 99), Err(LedgerError::NotFound));
    assert_eq!(del_category(&mut l, 99), Err(LedgerError::NotFound));
    assert_eq!(edit_account(&mut l, 99, "x".to_string(), 0), Err(LedgerError::NotFound));
    assert_eq!(
        edit_category(&mut l, 99, "x".to_string(), "y".to_string()),
        Err(LedgerError::NotFound)
    );
}

#[test]
fn expense_id_is_not_an_income_id() {
    let mut l = setup();
    add_expense(&mut l, 1, 20, "food".to_string(), "cash".to_string()).unwrap();
    let id = get_expense(&l, 1)[0].id;
    assert_eq!(del_income(&mut l, id), Err(LedgerError::NotFound));
    assert_eq!(balance_of(&l, 1, "cash"), -20);
}

#[test]
fn referenced_entities_cannot_be_deleted() {
    let mut l = setup();
    add_expense(&mut l, 1, 20, "food".to_string(), "cash".to_string()).unwrap();
    let acc = get_accounts(&l, 1)[0].id.unwrap();
    let food = get_categories(&l, 1)[0].id.unwrap();
    let salary = get_categories(&l, 1)[1].id.unwrap();
    assert_eq!(del_account(&mut l, acc), Err(LedgerError::Referenced));
    assert_eq!(del_category(&mut l, food), Err(LedgerError::Referenced));
    del_category(&mut l, salary).unwrap();
    assert_eq!(get_categories(&l, 1).len(), 1);
    let exp = get_expense(&l, 1)[0].id;
    del_expense(&mut l, exp).unwrap();
    del_account(&mut l, acc).unwrap();
    assert!(get_accounts(&l, 1).is_empty());
}

#[test]
fn balance_overflow_is_refused() {
    let mut l = setup();
    account(1, "big", i64::MAX - 5).add(&mut l).unwrap();
    let r = add_income(&mut l, 1, 10, "salary".to_string(), "big".to_string());
    assert_eq!(r, Err(LedgerError::OutOfRange));
    assert_eq!(balance_of(&l, 1, "big"), i64::MAX - 5);
    assert!(get_income(&l, 1).is_empty());
    account(1, "low", i64::MIN + 1).add(&mut l).unwrap();
    let r = add_expense(&mut l, 1, 2, "food".to_string(), "low".to_string());
    assert_eq!(r, Err(LedgerError::OutOfRange));
}

#[test]
fn negative_balances_are_allowed() {
    let mut l = setup();
    add_expense(&mut l, 1, 1, "food".to_string(), "cash".to_string()).unwrap();
    assert_eq!(balance_of(&l, 1, "cash"), -1);
}

#[test]
fn total_sums_only_the_users_accounts() {
    let mut l = setup();
    account(1, "card", 150).add(&mut l).unwrap();
    account(2, "other", 1_000).add(&mut l).unwrap();
    add_expense(&mut l, 1, 20, "food".to_string(), "cash".to_string()).unwrap();
    assert_eq!(total_balance(&l, 1), 130);
    assert_eq!(total_balance(&l, 2), 1_000);
    assert_eq!(total_balance(&l, 3), 0);
}

#[test]
fn total_does_not_overflow() {
    let mut l = Ledger::new();
    account(1, "a", i64::MAX).add(&mut l).unwrap();
    account(1, "b", i64::MAX).add(&mut l).unwrap();
    assert_eq!(total_balance(&l, 1), 2 * (i64::MAX as i128));
}
