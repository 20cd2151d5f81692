use vstd::prelude::*;

use crate::balance::{apply_delta, delta_for};
use crate::preserve::{
    lemma_add_keeps_wf, lemma_del_keeps_wf, lemma_edit_account_keeps_wf, lemma_refs_kept,
    lemma_same_category_ids, lemma_same_ids,
};
use crate::model::{
    account_in_use, account_named_pos, account_pos, after, category_in_use, category_named_pos,
    category_pos, has_account_id, has_account_named, has_category_id, has_category_named, has_tx,
    accounts_of, categories_of, reports, total_of, tx_pos, with_balance, AccountRow, Accounts, Categories, CategoryRow, Expenses, Income,
    LedgerError, LedgerView, TxKind, TxRow,
};

verus! {

/// The store of accounts, categories and transactions. Each
/// mutation is applied whole or not at all, so a stored balance never
/// disagrees with the transactions that were recorded against it.
pub struct Ledger {
    accounts: Vec<AccountRow>,
    categories: Vec<CategoryRow>,
    txs: Vec<TxRow>,
    next_id: i64,
}

impl View for Ledger {
    type V = LedgerView;

    closed spec fn view(&self) -> LedgerView {
        LedgerView {
            accounts: self.accounts@,
            categories: self.categories@,
            txs: self.txs@,
            next_id: self.next_id,
        }
    }
}

impl Ledger {
    /// An empty ledger.
    pub fn new() -> (r: Ledger)
        ensures
            r@.wf(),
            r@.accounts.len() == 0,
            r@.categories.len() == 0,
            r@.txs.len() == 0,
            r@.next_id == 1,
    {
        Ledger { accounts: Vec::new(), categories: Vec::new(), txs: Vec::new(), next_id: 1 }
    }
}

/// Where the account with identifier `id` is stored.
fn find_account_by_id(accs: &Vec<AccountRow>, id: i64) -> (r: Option<usize>)
    ensures
        match r {
            Some(i) => i < accs@.len() && accs@[i as int].id == id,
            None => !has_account_id(accs@, id),
        },
{
    let mut i: usize = 0;
    while i < accs.len()
        invariant
            i <= accs@.len(),
            forall|k: int| 0 <= k < i ==> accs@[k].id != id,
        decreases accs@.len() - i,
    {
        if accs[i].id == id {
            return Some(i);
        }
        i = i + 1;
    }
    None
}

/// Where the category with identifier `id` is stored.
fn find_category_by_id(cats: &Vec<CategoryRow>, id: i64) -> (r: Option<usize>)
    ensures
        match r {
            Some(i) => i < cats@.len() && cats@[i as int].id == id,
            None => !has_category_id(cats@, id),
        },
{
    let mut i: usize = 0;
    while i < cats.len()
        invariant
            i <= cats@.len(),
            forall|k: int| 0 <= k < i ==> cats@[k].id != id,
        decreases cats@.len() - i,
    {
        if cats[i].id == id {
            return Some(i);
        }
        i = i + 1;
    }
    None
}

/// Where the account that `user` calls `name` is stored.
fn find_account_named(accs: &Vec<AccountRow>, user: i64, name: &String) -> (r: Option<usize>)
    ensures
        match r {
            Some(i) => i < accs@.len() && accs@[i as int].user_id == user && accs@[i as int].name@
                == name@,
            None => !has_account_named(accs@, user, name@),
        },
{
    let mut i: usize = 0;
    while i < accs.len()
        invariant
            i <= accs@.len(),
            forall|k: int| 0 <= k < i ==> !(accs@[k].user_id == user && accs@[k].name@ == name@),
        decreases accs@.len() - i,
    {
        if accs[i].user_id == user && accs[i].name == *name {
            return Some(i);
        }
        i = i + 1;
    }
    None
}

/// Where the category that `user` calls `name` is stored.
fn find_category_named(cats: &Vec<CategoryRow>, user: i64, name: &String) -> (r: Option<usize>)
    ensures
        match r {
            Some(i) => i < cats@.len() && cats@[i as int].user_id == user && cats@[i as int].name@
                == name@,
            None => !has_category_named(cats@, user, name@),
        },
{
    let mut i: usize = 0;
    while i < cats.len()
        invariant
            i <= cats@.len(),
            forall|k: int| 0 <= k < i ==> !(cats@[k].user_id == user && cats@[k].name@ == name@),
        decreases cats@.len() - i,
    {
        if cats[i].user_id == user && cats[i].name == *name {
            return Some(i);
        }
        i = i + 1;
    }
    None
}

/// Where the transaction of `kind` with identifier `id` is stored.
fn find_tx(txs: &Vec<TxRow>, kind: TxKind, id: i64) -> (r: Option<usize>)
    ensures
        match r {
            Some(j) => j < txs@.len() && txs@[j as int].id == id && txs@[j as int].kind == kind,
            None => !has_tx(txs@, kind, id),
        },
{
    let mut j: usize = 0;
    while j < txs.len()
        invariant
            j <= txs@.len(),
            forall|k: int| 0 <= k < j ==> !(txs@[k].id == id && txs@[k].kind == kind),
        decreases txs@.len() - j,
    {
        if txs[j].id == id && txs[j].kind == kind {
            return Some(j);
        }
        j = j + 1;
    }
    None
}

/// Overwrites the balance of the account stored at `i`.
fn set_balance(ledger: &mut Ledger, i: usize, balance: i64)
    requires
        i < old(ledger)@.accounts.len(),
    ensures
        final(ledger)@ == (LedgerView {
            accounts: old(ledger)@.accounts.update(
                i as int,
                with_balance(old(ledger)@.accounts[i as int], balance),
            ),
            ..old(ledger)@
        }),
{
    let row = AccountRow {
        id: ledger.accounts[i].id,
        user_id: ledger.accounts[i].user_id,
        name: ledger.accounts[i].name.clone(),
        balance,
    };
    ledger.accounts.set(i, row);
}

/// Records a transaction: resolves the category, then the account, then
/// moves the balance and stores the record. Nothing changes unless all of
/// it succeeds.
fn add_transaction(
    ledger: &mut Ledger,
    user_id: i64,
    kind: TxKind,
    amount: i64,
    category: &String,
    account: &String,
) -> (r: Result<(), LedgerError>)
    requires
        old(ledger)@.wf(),
        amount > 0,
    ensures
        final(ledger)@.wf(),
        reports(r, old(ledger)@.add_result(user_id, kind, amount, category@, account@)),
        final(ledger)@ == after(
            old(ledger)@,
            old(ledger)@.add_result(user_id, kind, amount, category@, account@),
        ),
{
    let c = match find_category_named(&ledger.categories, user_id, category) {
        Some(c) => c,
        None => return Err(LedgerError::NotFound),
    };
    let i = match find_account_named(&ledger.accounts, user_id, account) {
        Some(i) => i,
        None => return Err(LedgerError::NotFound),
    };
    let ghost v = ledger@;
    assert(category_named_pos(v.categories, user_id, category@) == c);
    assert(account_named_pos(v.accounts, user_id, account@) == i);
    let delta = delta_for(kind, amount);
    let balance = match apply_delta(ledger.accounts[i].balance, delta) {
        Ok(b) => b,
        Err(e) => return Err(e),
    };
    if ledger.next_id == i64::MAX {
        return Err(LedgerError::OutOfRange);
    }
    let row = TxRow {
        id: ledger.next_id,
        user_id,
        kind,
        account_id: ledger.accounts[i].id,
        category_id: ledger.categories[c].id,
        amount,
    };
    set_balance(ledger, i, balance);
    ledger.txs.push(row);
    ledger.next_id = ledger.next_id + 1;
    proof {
        assert(ledger@ == v.add_result(user_id, kind, amount, category@, account@).unwrap());
        lemma_add_keeps_wf(v, user_id, kind, amount, category@, account@);
    }
    Ok(())
}

/// Removes a transaction and reverses its effect on its account's balance.
/// Nothing changes unless all of it succeeds.
fn del_transaction(ledger: &mut Ledger, kind: TxKind, id: i64) -> (r: Result<(), LedgerError>)
    requires
        old(ledger)@.wf(),
    ensures
        final(ledger)@.wf(),
        reports(r, old(ledger)@.del_result(kind, id)),
        final(ledger)@ == after(old(ledger)@, old(ledger)@.del_result(kind, id)),
{
    let j = match find_tx(&ledger.txs, kind, id) {
        Some(j) => j,
        None => return Err(LedgerError::NotFound),
    };
    let ghost v = ledger@;
    assert(tx_pos(v.txs, kind, id) == j);
    let t = ledger.txs[j];
    let i = find_account_by_id(&ledger.accounts, t.account_id).unwrap();
    assert(account_pos(v.accounts, t.account_id) == i);
    let delta = delta_for(t.kind, t.amount);
    let balance = match apply_delta(ledger.accounts[i].balance, -delta) {
        Ok(b) => b,
        Err(e) => return Err(e),
    };
    set_balance(ledger, i, balance);
    ledger.txs.remove(j);
    proof {
        assert(ledger@ == v.del_result(kind, id).unwrap());
        lemma_del_keeps_wf(v, kind, id);
    }
    Ok(())
}

} // verus!

verus! {

/// Records an expense of `amount` by `user_id` against the category and the
/// account that the user calls `category` and `account`: the account's
/// balance goes down by `amount` and the record is stored under the next
/// identifier. `NotFound` when either name does not resolve, `OutOfRange`
/// when the balance would leave `i64`; on any error nothing changes.
pub fn add_expense(
    ledger: &mut Ledger,
    user_id: i64,
    amount: i64,
    category: String,
    account: String,
) -> (r: Result<(), LedgerError>)
    requires
        old(ledger)@.wf(),
        amount > 0,
    ensures
        final(ledger)@.wf(),
        reports(r, old(ledger)@.add_result(user_id, TxKind::Expense, amount, category@, account@)),
        final(ledger)@ == after(
            old(ledger)@,
            old(ledger)@.add_result(user_id, TxKind::Expense, amount, category@, account@),
        ),
        r == Err::<(), LedgerError>(LedgerError::NotFound) <==> (!has_category_named(
            old(ledger)@.categories,
            user_id,
            category@,
        ) || !has_account_named(old(ledger)@.accounts, user_id, account@)),
{
    add_transaction(ledger, user_id, TxKind::Expense, amount, &category, &account)
}

/// Records an income of `amount`; as `add_expense`, with the balance going
/// up by `amount`.
pub fn add_income(
    ledger: &mut Ledger,
    user_id: i64,
    amount: i64,
    category: String,
    account: String,
) -> (r: Result<(), LedgerError>)
    requires
        old(ledger)@.wf(),
        amount > 0,
    ensures
        final(ledger)@.wf(),
        reports(r, old(ledger)@.add_result(user_id, TxKind::Income, amount, category@, account@)),
        final(ledger)@ == after(
            old(ledger)@,
            old(ledger)@.add_result(user_id, TxKind::Income, amount, category@, account@),
        ),
        r == Err::<(), LedgerError>(LedgerError::NotFound) <==> (!has_category_named(
            old(ledger)@.categories,
            user_id,
            category@,
        ) || !has_account_named(old(ledger)@.accounts, user_id, account@)),
{
    add_transaction(ledger, user_id, TxKind::Income, amount, &category, &account)
}

/// Deletes the expense `id` and gives its amount back to its account.
/// `NotFound` when there is no such expense; on any error nothing changes.
pub fn del_expense(ledger: &mut Ledger, id: i64) -> (r: Result<(), LedgerError>)
    requires
        old(ledger)@.wf(),
    ensures
        final(ledger)@.wf(),
        reports(r, old(ledger)@.del_result(TxKind::Expense, id)),
        final(ledger)@ == after(old(ledger)@, old(ledger)@.del_result(TxKind::Expense, id)),
        r == Err::<(), LedgerError>(LedgerError::NotFound) <==> !has_tx(
            old(ledger)@.txs,
            TxKind::Expense,
            id,
        ),
{
    del_transaction(ledger, TxKind::Expense, id)
}

/// Deletes the income `id` and takes its amount back from its account.
/// `NotFound` when there is no such income; on any error nothing changes.
pub fn del_income(ledger: &mut Ledger, id: i64) -> (r: Result<(), LedgerError>)
    requires
        old(ledger)@.wf(),
    ensures
        final(ledger)@.wf(),
        reports(r, old(ledger)@.del_result(TxKind::Income, id)),
        final(ledger)@ == after(old(ledger)@, old(ledger)@.del_result(TxKind::Income, id)),
        r == Err::<(), LedgerError>(LedgerError::NotFound) <==> !has_tx(
            old(ledger)@.txs,
            TxKind::Income,
            id,
        ),
{
    del_transaction(ledger, TxKind::Income, id)
}

} // verus!

verus! {

/// The accounts of `user_id`, in the order they were created.
pub fn get_accounts(ledger: &Ledger, user_id: i64) -> (r: Vec<Accounts>)
    ensures
        r@ == accounts_of(ledger@.accounts, user_id),
{
    let accs = &ledger.accounts;
    let mut out: Vec<Accounts> = Vec::new();
    let mut i: usize = 0;
    while i < accs.len()
        invariant
            i <= accs@.len(),
            out@ == accounts_of(accs@.take(i as int), user_id),
        decreases accs@.len() - i,
    {
        assert(accs@.take(i + 1).drop_last() =~= accs@.take(i as int));
        let a = &accs[i];
        if a.user_id == user_id {
            out.push(Accounts { id: Some(a.id), name: a.name.clone(), balance: a.balance, user_id });
        }
        i = i + 1;
    }
    assert(accs@.take(accs@.len() as int) =~= accs@);
    out
}

/// The categories of `user_id`, in the order they were created.
pub fn get_categories(ledger: &Ledger, user_id: i64) -> (r: Vec<Categories>)
    ensures
        r@ == categories_of(ledger@.categories, user_id),
{
    let cats = &ledger.categories;
    let mut out: Vec<Categories> = Vec::new();
    let mut i: usize = 0;
    while i < cats.len()
        invariant
            i <= cats@.len(),
            out@ == categories_of(cats@.take(i as int), user_id),
        decreases cats@.len() - i,
    {
        assert(cats@.take(i + 1).drop_last() =~= cats@.take(i as int));
        let c = &cats[i];
        if c.user_id == user_id {
            out.push(
                Categories {
                    id: Some(c.id),
                    name: c.name.clone(),
                    user_id,
                    description: c.description.clone(),
                },
            );
        }
        i = i + 1;
    }
    assert(cats@.take(cats@.len() as int) =~= cats@);
    out
}

/// The names of the account and of the category that transaction `t`
/// references.
fn names_of(ledger: &Ledger, t: &TxRow) -> (r: (String, String))
    requires
        ledger@.wf(),
        has_account_id(ledger@.accounts, t.account_id),
        has_category_id(ledger@.categories, t.category_id),
    ensures
        r.0 == ledger@.account_name_of(*t),
        r.1 == ledger@.category_name_of(*t),
{
    let i = find_account_by_id(&ledger.accounts, t.account_id).unwrap();
    let c = find_category_by_id(&ledger.categories, t.category_id).unwrap();
    assert(account_pos(ledger@.accounts, t.account_id) == i);
    assert(category_pos(ledger@.categories, t.category_id) == c);
    (ledger.accounts[i].name.clone(), ledger.categories[c].name.clone())
}

/// The expenses of `user_id` in the order they were recorded, each with its
/// account and category by name.
pub fn get_expense(ledger: &Ledger, user_id: i64) -> (r: Vec<Expenses>)
    requires
        ledger@.wf(),
    ensures
        r@ == ledger@.expenses_in(ledger@.txs, user_id),
{
    let txs = &ledger.txs;
    let mut out: Vec<Expenses> = Vec::new();
    let mut j: usize = 0;
    while j < txs.len()
        invariant
            ledger@.wf(),
            txs@ == ledger@.txs,
            j <= txs@.len(),
            out@ == ledger@.expenses_in(txs@.take(j as int), user_id),
        decreases txs@.len() - j,
    {
        assert(txs@.take(j + 1).drop_last() =~= txs@.take(j as int));
        let t = &txs[j];
        if t.user_id == user_id && t.kind == TxKind::Expense {
            assert(t.amount > 0);
            let (account, category) = names_of(ledger, t);
            out.push(Expenses { id: t.id, account, category, amount: t.amount, user_id });
        }
        j = j + 1;
    }
    assert(txs@.take(txs@.len() as int) =~= txs@);
    out
}

/// The income records of `user_id` in the order they were recorded, each
/// with its account and category by name.
pub fn get_income(ledger: &Ledger, user_id: i64) -> (r: Vec<Income>)
    requires
        ledger@.wf(),
    ensures
        r@ == ledger@.income_in(ledger@.txs, user_id),
{
    let txs = &ledger.txs;
    let mut out: Vec<Income> = Vec::new();
    let mut j: usize = 0;
    while j < txs.len()
        invariant
            ledger@.wf(),
            txs@ == ledger@.txs,
            j <= txs@.len(),
            out@ == ledger@.income_in(txs@.take(j as int), user_id),
        decreases txs@.len() - j,
    {
        assert(txs@.take(j + 1).drop_last() =~= txs@.take(j as int));
        let t = &txs[j];
        if t.user_id == user_id && t.kind == TxKind::Income {
            assert(t.amount > 0);
            let (account, category) = names_of(ledger, t);
            out.push(Income { id: t.id, account, category, amount: t.amount, user_id });
        }
        j = j + 1;
    }
    assert(txs@.take(txs@.len() as int) =~= txs@);
    out
}

/// The sum of the balances of all accounts of `user_id`. It is computed in
/// `i128`, where no number of `i64` balances that a `Vec` can hold overflows.
pub fn total_balance(ledger: &Ledger, user_id: i64) -> (r: i128)
    ensures
        r == total_of(ledger@.accounts, user_id),
{
    let accs = &ledger.accounts;
    let mut sum: i128 = 0;
    let mut i: usize = 0;
    while i < accs.len()
        invariant
            i <= accs@.len(),
            sum == total_of(accs@.take(i as int), user_id),
            -(i as int) * 0x8000_0000_0000_0000 <= sum <= (i as int) * 0x8000_0000_0000_0000,
        decreases accs@.len() - i,
    {
        assert(accs@.take(i + 1).drop_last() =~= accs@.take(i as int));
        if accs[i].user_id == user_id {
            sum = sum + accs[i].balance as i128;
        }
        i = i + 1;
    }
    assert(accs@.take(accs@.len() as int) =~= accs@);
    sum
}

} // verus!

verus! {

/// Whether an account other than the one at `i` belongs to `user` and is
/// called `name`.
fn account_name_taken(accs: &Vec<AccountRow>, user: i64, name: &String, i: usize) -> (r: bool)
    ensures
        r == exists|k: int|
            0 <= k < accs@.len() && k != i && accs@[k].user_id == user && accs@[k].name@ == name@,
{
    let mut k: usize = 0;
    while k < accs.len()
        invariant
            k <= accs@.len(),
            forall|q: int|
                0 <= q < k ==> !(q != i && accs@[q].user_id == user && accs@[q].name@ == name@),
        decreases accs@.len() - k,
    {
        if k != i && accs[k].user_id == user && accs[k].name == *name {
            return true;
        }
        k = k + 1;
    }
    false
}

/// Whether a category other than the one at `i` belongs to `user` and is
/// called `name`.
fn category_name_taken(cats: &Vec<CategoryRow>, user: i64, name: &String, i: usize) -> (r: bool)
    ensures
        r == exists|k: int|
            0 <= k < cats@.len() && k != i && cats@[k].user_id == user && cats@[k].name@ == name@,
{
    let mut k: usize = 0;
    while k < cats.len()
        invariant
            k <= cats@.len(),
            forall|q: int|
                0 <= q < k ==> !(q != i && cats@[q].user_id == user && cats@[q].name@ == name@),
        decreases cats@.len() - k,
    {
        if k != i && cats[k].user_id == user && cats[k].name == *name {
            return true;
        }
        k = k + 1;
    }
    false
}

/// Whether some transaction references the account `id`.
fn account_referenced(txs: &Vec<TxRow>, id: i64) -> (r: bool)
    ensures
        r == account_in_use(txs@, id),
{
    let mut j: usize = 0;
    while j < txs.len()
        invariant
            j <= txs@.len(),
            forall|q: int| 0 <= q < j ==> txs@[q].account_id != id,
        decreases txs@.len() - j,
    {
        if txs[j].account_id == id {
            return true;
        }
        j = j + 1;
    }
    false
}

/// Whether some transaction references the category `id`.
fn category_referenced(txs: &Vec<TxRow>, id: i64) -> (r: bool)
    ensures
        r == category_in_use(txs@, id),
{
    let mut j: usize = 0;
    while j < txs.len()
        invariant
            j <= txs@.len(),
            forall|q: int| 0 <= q < j ==> txs@[q].category_id != id,
        decreases txs@.len() - j,
    {
        if txs[j].category_id == id {
            return true;
        }
        j = j + 1;
    }
    false
}

impl Accounts {
    /// Stores this account for its user under the next identifier, with
    /// its given balance, and returns that identifier. `Conflict` when the
    /// user already has an account of this name; nothing changes on error.
    pub fn add(&self, ledger: &mut Ledger) -> (r: Result<i64, LedgerError>)
        requires
            old(ledger)@.wf(),
        ensures
            final(ledger)@.wf(),
            reports(r, old(ledger)@.add_account_result(self.user_id, self.name, self.balance)),
            final(ledger)@ == after(
                old(ledger)@,
                old(ledger)@.add_account_result(self.user_id, self.name, self.balance),
            ),
            r is Ok ==> r == Ok::<i64, LedgerError>(old(ledger)@.next_id),
    {
        if find_account_named(&ledger.accounts, self.user_id, &self.name).is_some() {
            return Err(LedgerError::Conflict);
        }
        if ledger.next_id == i64::MAX {
            return Err(LedgerError::OutOfRange);
        }
        let ghost v = ledger@;
        let id = ledger.next_id;
        ledger.accounts.push(
            AccountRow { id, user_id: self.user_id, name: self.name.clone(), balance: self.balance },
        );
        ledger.next_id = id + 1;
        proof {
            let w = ledger@;
            assert forall|x: i64| has_account_id(v.accounts, x) implies has_account_id(
                w.accounts,
                x,
            ) by {
                let k = choose|k: int| 0 <= k < v.accounts.len() && v.accounts[k].id == x;
                assert(w.accounts[k] == v.accounts[k]);
            }
            lemma_refs_kept(v, w);
            assert forall|a: int, b: int|
                0 <= a < w.accounts.len() && 0 <= b < w.accounts.len() && a != b implies {
                &&& w.accounts[a].id != w.accounts[b].id
                &&& (w.accounts[a].user_id != w.accounts[b].user_id || w.accounts[a].name@
                    != w.accounts[b].name@)
            } by {
                if a < v.accounts.len() && b < v.accounts.len() {
                    assert(w.accounts[a] == v.accounts[a] && w.accounts[b] == v.accounts[b]);
                } else if a < v.accounts.len() {
                    assert(w.accounts[a] == v.accounts[a]);
                } else {
                    assert(w.accounts[b] == v.accounts[b]);
                }
            }
        }
        Ok(id)
    }
}

impl Categories {
    /// Stores this category for its user under the next identifier and
    /// returns that identifier. `Conflict` when the user already has a
    /// category of this name; nothing changes on error.
    pub fn add(&self, ledger: &mut Ledger) -> (r: Result<i64, LedgerError>)
        requires
            old(ledger)@.wf(),
        ensures
            final(ledger)@.wf(),
            reports(
                r,
                old(ledger)@.add_category_result(self.user_id, self.name, self.description),
            ),
            final(ledger)@ == after(
                old(ledger)@,
                old(ledger)@.add_category_result(self.user_id, self.name, self.description),
            ),
            r is Ok ==> r == Ok::<i64, LedgerError>(old(ledger)@.next_id),
    {
        if find_category_named(&ledger.categories, self.user_id, &self.name).is_some() {
            return Err(LedgerError::Conflict);
        }
        if ledger.next_id == i64::MAX {
            return Err(LedgerError::OutOfRange);
        }
        let ghost v = ledger@;
        let id = ledger.next_id;
        ledger.categories.push(
            CategoryRow {
                id,
                user_id: self.user_id,
                name: self.name.clone(),
                description: self.description.clone(),
            },
        );
        ledger.next_id = id + 1;
        proof {
            let w = ledger@;
            assert forall|x: i64| has_category_id(v.categories, x) implies has_category_id(
                w.categories,
                x,
            ) by {
                let k = choose|k: int| 0 <= k < v.categories.len() && v.categories[k].id == x;
                assert(w.categories[k] == v.categories[k]);
            }
            lemma_refs_kept(v, w);
            assert forall|a: int, b: int|
                0 <= a < w.categories.len() && 0 <= b < w.categories.len() && a != b implies {
                &&& w.categories[a].id != w.categories[b].id
                &&& (w.categories[a].user_id != w.categories[b].user_id || w.categories[a].name@
                    != w.categories[b].name@)
            } by {
                if a < v.categories.len() && b < v.categories.len() {
                    assert(w.categories[a] == v.categories[a] && w.categories[b] == v.categories[b]);
                } else if a < v.categories.len() {
                    assert(w.categories[a] == v.categories[a]);
                } else {
                    assert(w.categories[b] == v.categories[b]);
                }
            }
        }
        Ok(id)
    }
}

} // verus!

verus! {

/// Overwrites the name and the balance of account `id`. The balance is set,
/// not adjusted: this is the manual correction path, outside the
/// transaction history. `NotFound` when there is no such account,
/// `Conflict` when its user has another account of that name; nothing
/// changes on error.
pub fn edit_account(ledger: &mut Ledger, id: i64, name: String, balance: i64) -> (r: Result<
    (),
    LedgerError,
>)
    requires
        old(ledger)@.wf(),
    ensures
        final(ledger)@.wf(),
        reports(r, old(ledger)@.edit_account_result(id, name, balance)),
        final(ledger)@ == after(old(ledger)@, old(ledger)@.edit_account_result(id, name, balance)),
{
    let i = match find_account_by_id(&ledger.accounts, id) {
        Some(i) => i,
        None => return Err(LedgerError::NotFound),
    };
    let ghost v = ledger@;
    assert(account_pos(v.accounts, id) == i);
    let user_id = ledger.accounts[i].user_id;
    if account_name_taken(&ledger.accounts, user_id, &name, i) {
        return Err(LedgerError::Conflict);
    }
    let ghost name_view = name;
    ledger.accounts.set(i, AccountRow { id, user_id, name, balance });
    proof {
        lemma_edit_account_keeps_wf(v, id, name_view, balance);
    }
    Ok(())
}

/// Overwrites the name and the description of category `id`. `NotFound`
/// when there is no such category, `Conflict` when its user has another
/// category of that name; nothing changes on error.
pub fn edit_category(ledger: &mut Ledger, id: i64, name: String, description: String) -> (r:
    Result<(), LedgerError>)
    requires
        old(ledger)@.wf(),
    ensures
        final(ledger)@.wf(),
        reports(r, old(ledger)@.edit_category_result(id, name, description)),
        final(ledger)@ == after(
            old(ledger)@,
            old(ledger)@.edit_category_result(id, name, description),
        ),
{
    let i = match find_category_by_id(&ledger.categories, id) {
        Some(i) => i,
        None => return Err(LedgerError::NotFound),
    };
    let ghost v = ledger@;
    assert(category_pos(v.categories, id) == i);
    let user_id = ledger.categories[i].user_id;
    if category_name_taken(&ledger.categories, user_id, &name, i) {
        return Err(LedgerError::Conflict);
    }
    ledger.categories.set(i, CategoryRow { id, user_id, name, description });
    proof {
        let w = ledger@;
        assert forall|k: int| 0 <= k < v.categories.len() implies v.categories[k].id
            == #[trigger] w.categories[k].id by {}
        lemma_same_category_ids(v.categories, w.categories);
        lemma_same_ids(v.accounts, w.accounts);
        lemma_refs_kept(v, w);
        assert forall|a: int, b: int|
            0 <= a < w.categories.len() && 0 <= b < w.categories.len() && a != b implies {
            &&& w.categories[a].id != w.categories[b].id
            &&& (w.categories[a].user_id != w.categories[b].user_id || w.categories[a].name@
                != w.categories[b].name@)
        } by {
            assert(v.categories[a].id == w.categories[a].id && v.categories[b].id
                == w.categories[b].id);
            assert(v.categories[a].user_id == w.categories[a].user_id && v.categories[b].user_id
                == w.categories[b].user_id);
            if a != i && b != i {
                assert(w.categories[a] == v.categories[a] && w.categories[b] == v.categories[b]);
            }
        }
    }
    Ok(())
}

/// Deletes account `id`. `NotFound` when there is no such account,
/// `Referenced` while a transaction references it; nothing changes on error.
pub fn del_account(ledger: &mut Ledger, id: i64) -> (r: Result<(), LedgerError>)
    requires
        old(ledger)@.wf(),
    ensures
        final(ledger)@.wf(),
        reports(r, old(ledger)@.del_account_result(id)),
        final(ledger)@ == after(old(ledger)@, old(ledger)@.del_account_result(id)),
{
    let i = match find_account_by_id(&ledger.accounts, id) {
        Some(i) => i,
        None => return Err(LedgerError::NotFound),
    };
    if account_referenced(&ledger.txs, id) {
        return Err(LedgerError::Referenced);
    }
    let ghost v = ledger@;
    assert(account_pos(v.accounts, id) == i);
    ledger.accounts.remove(i);
    proof {
        let w = ledger@;
        assert forall|x: i64| has_account_id(v.accounts, x) && x != id implies has_account_id(
            w.accounts,
            x,
        ) by {
            let k = choose|k: int| 0 <= k < v.accounts.len() && v.accounts[k].id == x;
            if k < i {
                assert(w.accounts[k] == v.accounts[k]);
            } else {
                assert(w.accounts[k - 1] == v.accounts[k]);
            }
        }
        assert forall|j: int| 0 <= j < w.txs.len() implies has_account_id(
            w.accounts,
            #[trigger] w.txs[j].account_id,
        ) by {
            assert(v.txs[j].amount > 0);
            assert(v.txs[j].account_id != id);
        }
        assert forall|a: int, b: int|
            0 <= a < w.accounts.len() && 0 <= b < w.accounts.len() && a != b implies {
            &&& w.accounts[a].id != w.accounts[b].id
            &&& (w.accounts[a].user_id != w.accounts[b].user_id || w.accounts[a].name@
                != w.accounts[b].name@)
        } by {
            let pa = if a < i { a } else { a + 1 };
            let pb = if b < i { b } else { b + 1 };
            assert(w.accounts[a] == v.accounts[pa] && w.accounts[b] == v.accounts[pb]);
        }
        assert forall|a: int| 0 <= a < w.accounts.len() implies 1 <= #[trigger] w.accounts[a].id
            < w.next_id by {
            let pa = if a < i { a } else { a + 1 };
            assert(w.accounts[a] == v.accounts[pa]);
        }
    }
    Ok(())
}

/// Deletes category `id`. `NotFound` when there is no such category,
/// `Referenced` while a transaction references it; nothing changes on error.
pub fn del_category(ledger: &mut Ledger, id: i64) -> (r: Result<(), LedgerError>)
    requires
        old(ledger)@.wf(),
    ensures
        final(ledger)@.wf(),
        reports(r, old(ledger)@.del_category_result(id)),
        final(ledger)@ == after(old(ledger)@, old(ledger)@.del_category_result(id)),
{
    let i = match find_category_by_id(&ledger.categories, id) {
        Some(i) => i,
        None => return Err(LedgerError::NotFound),
    };
    if category_referenced(&ledger.txs, id) {
        return Err(LedgerError::Referenced);
    }
    let ghost v = ledger@;
    assert(category_pos(v.categories, id) == i);
    ledger.categories.remove(i);
    proof {
        let w = ledger@;
        assert forall|x: i64| has_category_id(v.categories, x) && x != id implies has_category_id(
            w.categories,
            x,
        ) by {
            let k = choose|k: int| 0 <= k < v.categories.len() && v.categories[k].id == x;
            if k < i {
                assert(w.categories[k] == v.categories[k]);
            } else {
                assert(w.categories[k - 1] == v.categories[k]);
            }
        }
        assert forall|j: int| 0 <= j < w.txs.len() implies has_category_id(
            w.categories,
            #[trigger] w.txs[j].category_id,
        ) by {
            assert(v.txs[j].amount > 0);
            assert(v.txs[j].category_id != id);
        }
        assert forall|a: int, b: int|
            0 <= a < w.categories.len() && 0 <= b < w.categories.len() && a != b implies {
            &&& w.categories[a].id != w.categories[b].id
            &&& (w.categories[a].user_id != w.categories[b].user_id || w.categories[a].name@
                != w.categories[b].name@)
        } by {
            let pa = if a < i { a } else { a + 1 };
            let pb = if b < i { b } else { b + 1 };
            assert(w.categories[a] == v.categories[pa] && w.categories[b] == v.categories[pb]);
        }
        assert forall|a: int| 0 <= a < w.categories.len() implies 1 <= #[trigger] w.categories[a].id
            < w.next_id by {
            let pa = if a < i { a } else { a + 1 };
            assert(w.categories[a] == v.categories[pa]);
        }
    }
    Ok(())
}

} // verus!

verus! {

impl Ledger {
    /// The identifier that the next created account, category or
    /// transaction receives.
    pub fn next_id(&self) -> (r: i64)
        ensures
            r == self@.next_id,
    {
        self.next_id
    }
}

/// Puts back an account row read from durable storage, under its own
/// identifier. `OutOfRange` for an identifier below 1 or at `i64::MAX`,
/// `Conflict` when the identifier or the (user, name) pair is taken;
/// nothing changes on error.
pub fn load_account(ledger: &mut Ledger, row: AccountRow) -> (r: Result<(), LedgerError>)
    requires
        old(ledger)@.wf(),
    ensures
        final(ledger)@.wf(),
        reports(r, old(ledger)@.load_account_result(row)),
        final(ledger)@ == after(old(ledger)@, old(ledger)@.load_account_result(row)),
{
    if row.id < 1 || row.id == i64::MAX {
        return Err(LedgerError::OutOfRange);
    }
    if find_account_by_id(&ledger.accounts, row.id).is_some() || find_account_named(
        &ledger.accounts,
        row.user_id,
        &row.name,
    ).is_some() {
        return Err(LedgerError::Conflict);
    }
    let ghost v = ledger@;
    let ghost g = row;
    if row.id >= ledger.next_id {
        ledger.next_id = row.id + 1;
    }
    ledger.accounts.push(row);
    proof {
        let w = ledger@;
        assert forall|x: i64| has_account_id(v.accounts, x) implies has_account_id(
            w.accounts,
            x,
        ) by {
            let k = choose|k: int| 0 <= k < v.accounts.len() && v.accounts[k].id == x;
            assert(w.accounts[k] == v.accounts[k]);
        }
        lemma_refs_kept(v, w);
        assert forall|a: int, b: int|
            0 <= a < w.accounts.len() && 0 <= b < w.accounts.len() && a != b implies {
            &&& w.accounts[a].id != w.accounts[b].id
            &&& (w.accounts[a].user_id != w.accounts[b].user_id || w.accounts[a].name@
                != w.accounts[b].name@)
        } by {
            if a < v.accounts.len() && b < v.accounts.len() {
                assert(w.accounts[a] == v.accounts[a] && w.accounts[b] == v.accounts[b]);
            } else if a < v.accounts.len() {
                assert(w.accounts[a] == v.accounts[a]);
            } else {
                assert(w.accounts[b] == v.accounts[b]);
            }
        }
        assert(w == v.load_account_result(g).unwrap());
    }
    Ok(())
}

/// Puts back a category row read from durable storage, under its own
/// identifier. `OutOfRange` for an identifier below 1 or at `i64::MAX`,
/// `Conflict` when the identifier or the (user, name) pair is taken;
/// nothing changes on error.
pub fn load_category(ledger: &mut Ledger, row: CategoryRow) -> (r: Result<(), LedgerError>)
    requires
        old(ledger)@.wf(),
    ensures
        final(ledger)@.wf(),
        reports(r, old(ledger)@.load_category_result(row)),
        final(ledger)@ == after(old(ledger)@, old(ledger)@.load_category_result(row)),
{
    if row.id < 1 || row.id == i64::MAX {
        return Err(LedgerError::OutOfRange);
    }
    if find_category_by_id(&ledger.categories, row.id).is_some() || find_category_named(
        &ledger.categories,
        row.user_id,
        &row.name,
    ).is_some() {
        return Err(LedgerError::Conflict);
    }
    let ghost v = ledger@;
    let ghost g = row;
    if row.id >= ledger.next_id {
        ledger.next_id = row.id + 1;
    }
    ledger.categories.push(row);
    proof {
        let w = ledger@;
        assert forall|x: i64| has_category_id(v.categories, x) implies has_category_id(
            w.categories,
            x,
        ) by {
            let k = choose|k: int| 0 <= k < v.categories.len() && v.categories[k].id == x;
            assert(w.categories[k] == v.categories[k]);
        }
        lemma_refs_kept(v, w);
        assert forall|a: int, b: int|
            0 <= a < w.categories.len() && 0 <= b < w.categories.len() && a != b implies {
            &&& w.categories[a].id != w.categories[b].id
            &&& (w.categories[a].user_id != w.categories[b].user_id || w.categories[a].name@
                != w.categories[b].name@)
        } by {
            if a < v.categories.len() && b < v.categories.len() {
                assert(w.categories[a] == v.categories[a] && w.categories[b] == v.categories[b]);
            } else if a < v.categories.len() {
                assert(w.categories[a] == v.categories[a]);
            } else {
                assert(w.categories[b] == v.categories[b]);
            }
        }
        assert(w == v.load_category_result(g).unwrap());
    }
    Ok(())
}

/// Puts back an expense or income row read from durable storage, under its
/// own identifier, leaving balances as they are (the stored balance already
/// holds its effect). `OutOfRange` for an identifier below 1 or at
/// `i64::MAX` or an amount that is not positive, `NotFound` when its account
/// or category is not loaded, `Conflict` when its identifier is taken for
/// its kind; nothing changes on error.
pub fn load_transaction(ledger: &mut Ledger, row: TxRow) -> (r: Result<(), LedgerError>)
    requires
        old(ledger)@.wf(),
    ensures
        final(ledger)@.wf(),
        reports(r, old(ledger)@.load_tx_result(row)),
        final(ledger)@ == after(old(ledger)@, old(ledger)@.load_tx_result(row)),
{
    if row.id < 1 || row.id == i64::MAX || row.amount <= 0 {
        return Err(LedgerError::OutOfRange);
    }
    if find_account_by_id(&ledger.accounts, row.account_id).is_none() || find_category_by_id(
        &ledger.categories,
        row.category_id,
    ).is_none() {
        return Err(LedgerError::NotFound);
    }
    if find_tx(&ledger.txs, row.kind, row.id).is_some() {
        return Err(LedgerError::Conflict);
    }
    let ghost v = ledger@;
    if row.id >= ledger.next_id {
        ledger.next_id = row.id + 1;
    }
    ledger.txs.push(row);
    proof {
        let w = ledger@;
        assert forall|j: int| 0 <= j < w.txs.len() implies {
            &&& #[trigger] w.txs[j].amount > 0
            &&& has_account_id(w.accounts, w.txs[j].account_id)
            &&& has_category_id(w.categories, w.txs[j].category_id)
        } by {
            if j < v.txs.len() {
                assert(w.txs[j] == v.txs[j]);
                assert(v.txs[j].amount > 0);
            }
        }
        assert forall|a: int, b: int|
            0 <= a < w.txs.len() && 0 <= b < w.txs.len() && a != b implies w.txs[a].id
            != w.txs[b].id || w.txs[a].kind != w.txs[b].kind by {
            if a < v.txs.len() && b < v.txs.len() {
                assert(w.txs[a] == v.txs[a] && w.txs[b] == v.txs[b]);
            } else if a < v.txs.len() {
                assert(w.txs[a] == v.txs[a]);
            } else {
                assert(w.txs[b] == v.txs[b]);
            }
        }
        assert(w == v.load_tx_result(row).unwrap());
    }
    Ok(())
}

} // verus!
