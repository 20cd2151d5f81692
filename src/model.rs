use vstd::prelude::*;

verus! {

/// The two kinds of transaction. An expense takes its amount out of the
/// account, an income puts it in.
#[derive(Clone, Copy, Debug, PartialEq, Eq, Structural)]
pub enum TxKind {
    Expense,
    Income,
}

/// The typed errors of the ledger operations.
#[derive(Clone, Copy, Debug, PartialEq, Eq, Structural)]
pub enum LedgerError {
    /// A named or numbered account, category or transaction does not exist.
    NotFound,
    /// The (user, name) pair is already taken by another entity of that kind.
    Conflict,
    /// The account or category is still referenced by a transaction.
    Referenced,
    /// A balance or a fresh identifier would leave the range of `i64`.
    OutOfRange,
}

/// A stored account.
#[derive(Debug)]
pub struct AccountRow {
    pub id: i64,
    pub user_id: i64,
    pub name: String,
    pub balance: i64,
}

/// A stored category.
#[derive(Debug)]
pub struct CategoryRow {
    pub id: i64,
    pub user_id: i64,
    pub name: String,
    pub description: String,
}

/// A stored expense or income record; the account and category are held by
/// identifier.
#[derive(Clone, Copy, Debug, PartialEq, Eq, Structural)]
pub struct TxRow {
    pub id: i64,
    pub user_id: i64,
    pub kind: TxKind,
    pub account_id: i64,
    pub category_id: i64,
    pub amount: i64,
}

/// An account as handed to and from the ledger; `id` is `None` for one not
/// yet stored.
#[derive(Debug)]
pub struct Accounts {
    pub id: Option<i64>,
    pub name: String,
    pub balance: i64,
    pub user_id: i64,
}

/// A category as handed to and from the ledger; `id` is `None` for one not
/// yet stored.
#[derive(Debug)]
pub struct Categories {
    pub id: Option<i64>,
    pub name: String,
    pub user_id: i64,
    pub description: String,
}

/// An expense as listed: account and category by name.
#[derive(Debug)]
pub struct Expenses {
    pub id: i64,
    pub account: String,
    pub category: String,
    pub amount: i64,
    pub user_id: i64,
}

/// An income as listed: account and category by name.
#[derive(Debug)]
pub struct Income {
    pub id: i64,
    pub account: String,
    pub category: String,
    pub amount: i64,
    pub user_id: i64,
}

/// The abstract content of a ledger.
pub struct LedgerView {
    pub accounts: Seq<AccountRow>,
    pub categories: Seq<CategoryRow>,
    pub txs: Seq<TxRow>,
    pub next_id: i64,
}

/// The effect of a transaction of `kind` and `amount` on its account's balance.
pub open spec fn delta_of(kind: TxKind, amount: int) -> int {
    match kind {
        TxKind::Income => amount,
        TxKind::Expense => -amount,
    }
}

pub open spec fn fits_i64(x: int) -> bool {
    i64::MIN <= x <= i64::MAX
}

/// Sum of the deltas of the transactions in `txs` that reference `account_id`.
pub open spec fn net(txs: Seq<TxRow>, account_id: i64) -> int
    decreases txs.len(),
{
    if txs.len() == 0 {
        0
    } else {
        let t = txs.last();
        net(txs.drop_last(), account_id) + if t.account_id == account_id {
            delta_of(t.kind, t.amount as int)
        } else {
            0
        }
    }
}

pub open spec fn has_account_id(accs: Seq<AccountRow>, id: i64) -> bool {
    exists|i: int| 0 <= i < accs.len() && accs[i].id == id
}

/// The position of the account with identifier `id`.
pub open spec fn account_pos(accs: Seq<AccountRow>, id: i64) -> int {
    choose|i: int| 0 <= i < accs.len() && accs[i].id == id
}

pub open spec fn has_category_id(cats: Seq<CategoryRow>, id: i64) -> bool {
    exists|i: int| 0 <= i < cats.len() && cats[i].id == id
}

pub open spec fn category_pos(cats: Seq<CategoryRow>, id: i64) -> int {
    choose|i: int| 0 <= i < cats.len() && cats[i].id == id
}

/// Whether `user` owns an account called `name`.
pub open spec fn has_account_named(accs: Seq<AccountRow>, user: i64, name: Seq<char>) -> bool {
    exists|i: int| 0 <= i < accs.len() && accs[i].user_id == user && accs[i].name@ == name
}

pub open spec fn account_named_pos(accs: Seq<AccountRow>, user: i64, name: Seq<char>) -> int {
    choose|i: int| 0 <= i < accs.len() && accs[i].user_id == user && accs[i].name@ == name
}

/// Whether `user` owns a category called `name`.
pub open spec fn has_category_named(cats: Seq<CategoryRow>, user: i64, name: Seq<char>) -> bool {
    exists|i: int| 0 <= i < cats.len() && cats[i].user_id == user && cats[i].name@ == name
}

pub open spec fn category_named_pos(cats: Seq<CategoryRow>, user: i64, name: Seq<char>) -> int {
    choose|i: int| 0 <= i < cats.len() && cats[i].user_id == user && cats[i].name@ == name
}

pub open spec fn has_tx(txs: Seq<TxRow>, kind: TxKind, id: i64) -> bool {
    exists|j: int| 0 <= j < txs.len() && txs[j].id == id && txs[j].kind == kind
}

pub open spec fn tx_pos(txs: Seq<TxRow>, kind: TxKind, id: i64) -> int {
    choose|j: int| 0 <= j < txs.len() && txs[j].id == id && txs[j].kind == kind
}

/// Whether some transaction references the account `id`.
pub open spec fn account_in_use(txs: Seq<TxRow>, id: i64) -> bool {
    exists|j: int| 0 <= j < txs.len() && txs[j].account_id == id
}

/// Whether some transaction references the category `id`.
pub open spec fn category_in_use(txs: Seq<TxRow>, id: i64) -> bool {
    exists|j: int| 0 <= j < txs.len() && txs[j].category_id == id
}

/// `a` with its balance replaced.
pub open spec fn with_balance(a: AccountRow, balance: i64) -> AccountRow {
    AccountRow { id: a.id, user_id: a.user_id, name: a.name, balance }
}

impl LedgerView {
    /// Identifiers are positive, below `next_id` and unique per table (an
    /// expense and an income may share one);
    /// (user, name) is unique among accounts and among categories; amounts
    /// are positive; every transaction references a stored account and
    /// category.
    pub open spec fn wf(&self) -> bool {
        &&& self.next_id >= 1
        &&& forall|i: int|
            0 <= i < self.accounts.len() ==> 1 <= #[trigger] self.accounts[i].id < self.next_id
        &&& forall|i: int|
            0 <= i < self.categories.len() ==> 1 <= #[trigger] self.categories[i].id
                < self.next_id
        &&& forall|j: int| 0 <= j < self.txs.len() ==> 1 <= #[trigger] self.txs[j].id < self.next_id
        &&& forall|i: int, k: int|
            #![trigger self.accounts[i], self.accounts[k]]
            0 <= i < self.accounts.len() && 0 <= k < self.accounts.len() && i != k ==> {
                &&& self.accounts[i].id != self.accounts[k].id
                &&& (self.accounts[i].user_id != self.accounts[k].user_id
                    || self.accounts[i].name@ != self.accounts[k].name@)
            }
        &&& forall|i: int, k: int|
            #![trigger self.categories[i], self.categories[k]]
            0 <= i < self.categories.len() && 0 <= k < self.categories.len() && i != k ==> {
                &&& self.categories[i].id != self.categories[k].id
                &&& (self.categories[i].user_id != self.categories[k].user_id
                    || self.categories[i].name@ != self.categories[k].name@)
            }
        &&& forall|j: int, k: int|
            #![trigger self.txs[j], self.txs[k]]
            0 <= j < self.txs.len() && 0 <= k < self.txs.len() && j != k ==> self.txs[j].id
                != self.txs[k].id || self.txs[j].kind != self.txs[k].kind
        &&& forall|j: int|
            0 <= j < self.txs.len() ==> {
                &&& #[trigger] self.txs[j].amount > 0
                &&& has_account_id(self.accounts, self.txs[j].account_id)
                &&& has_category_id(self.categories, self.txs[j].category_id)
            }
    }

    /// The stored balance of account `id`.
    pub open spec fn balance_of(&self, id: i64) -> int {
        self.accounts[account_pos(self.accounts, id)].balance as int
    }

    /// What adding a transaction does: resolve the category, then the
    /// account, then move the balance and record the transaction, all at once.
    pub open spec fn add_result(
        &self,
        user_id: i64,
        kind: TxKind,
        amount: i64,
        category: Seq<char>,
        account: Seq<char>,
    ) -> Result<LedgerView, LedgerError> {
        if !has_category_named(self.categories, user_id, category) {
            Err(LedgerError::NotFound)
        } else if !has_account_named(self.accounts, user_id, account) {
            Err(LedgerError::NotFound)
        } else {
            let i = account_named_pos(self.accounts, user_id, account);
            let c = category_named_pos(self.categories, user_id, category);
            let nb = self.accounts[i].balance + delta_of(kind, amount as int);
            if !fits_i64(nb) || self.next_id == i64::MAX {
                Err(LedgerError::OutOfRange)
            } else {
                Ok(
                    LedgerView {
                        accounts: self.accounts.update(i, with_balance(self.accounts[i], nb as i64)),
                        categories: self.categories,
                        txs: self.txs.push(
                            TxRow {
                                id: self.next_id,
                                user_id,
                                kind,
                                account_id: self.accounts[i].id,
                                category_id: self.categories[c].id,
                                amount,
                            },
                        ),
                        next_id: (self.next_id + 1) as i64,
                    },
                )
            }
        }
    }

    /// What deleting a transaction does: find it, reverse its delta on its
    /// account and remove it, all at once.
    pub open spec fn del_result(&self, kind: TxKind, id: i64) -> Result<LedgerView, LedgerError> {
        if !has_tx(self.txs, kind, id) {
            Err(LedgerError::NotFound)
        } else {
            let j = tx_pos(self.txs, kind, id);
            let t = self.txs[j];
            let i = account_pos(self.accounts, t.account_id);
            let nb = self.accounts[i].balance - delta_of(t.kind, t.amount as int);
            if !fits_i64(nb) {
                Err(LedgerError::OutOfRange)
            } else {
                Ok(
                    LedgerView {
                        accounts: self.accounts.update(i, with_balance(self.accounts[i], nb as i64)),
                        categories: self.categories,
                        txs: self.txs.remove(j),
                        next_id: self.next_id,
                    },
                )
            }
        }
    }
    /// Creating an account: refused when the user already has one of that
    /// name; otherwise stored under the next identifier.
    pub open spec fn add_account_result(&self, user_id: i64, name: String, balance: i64) -> Result<
        LedgerView,
        LedgerError,
    > {
        if has_account_named(self.accounts, user_id, name@) {
            Err(LedgerError::Conflict)
        } else if self.next_id == i64::MAX {
            Err(LedgerError::OutOfRange)
        } else {
            Ok(
                LedgerView {
                    accounts: self.accounts.push(
                        AccountRow { id: self.next_id, user_id, name, balance },
                    ),
                    next_id: (self.next_id + 1) as i64,
                    ..*self
                },
            )
        }
    }

    /// Creating a category: refused when the user already has one of that
    /// name; otherwise stored under the next identifier.
    pub open spec fn add_category_result(
        &self,
        user_id: i64,
        name: String,
        description: String,
    ) -> Result<LedgerView, LedgerError> {
        if has_category_named(self.categories, user_id, name@) {
            Err(LedgerError::Conflict)
        } else if self.next_id == i64::MAX {
            Err(LedgerError::OutOfRange)
        } else {
            Ok(
                LedgerView {
                    categories: self.categories.push(
                        CategoryRow { id: self.next_id, user_id, name, description },
                    ),
                    next_id: (self.next_id + 1) as i64,
                    ..*self
                },
            )
        }
    }

    /// Editing an account overwrites its name and its balance.
    pub open spec fn edit_account_result(&self, id: i64, name: String, balance: i64) -> Result<
        LedgerView,
        LedgerError,
    > {
        if !has_account_id(self.accounts, id) {
            Err(LedgerError::NotFound)
        } else {
            let i = account_pos(self.accounts, id);
            let user = self.accounts[i].user_id;
            if exists|k: int|
                0 <= k < self.accounts.len() && k != i && self.accounts[k].user_id == user
                    && self.accounts[k].name@ == name@ {
                Err(LedgerError::Conflict)
            } else {
                Ok(
                    LedgerView {
                        accounts: self.accounts.update(
                            i,
                            AccountRow { id, user_id: user, name, balance },
                        ),
                        ..*self
                    },
                )
            }
        }
    }

    /// Editing a category overwrites its name and its description.
    pub open spec fn edit_category_result(
        &self,
        id: i64,
        name: String,
        description: String,
    ) -> Result<LedgerView, LedgerError> {
        if !has_category_id(self.categories, id) {
            Err(LedgerError::NotFound)
        } else {
            let i = category_pos(self.categories, id);
            let user = self.categories[i].user_id;
            if exists|k: int|
                0 <= k < self.categories.len() && k != i && self.categories[k].user_id == user
                    && self.categories[k].name@ == name@ {
                Err(LedgerError::Conflict)
            } else {
                Ok(
                    LedgerView {
                        categories: self.categories.update(
                            i,
                            CategoryRow { id, user_id: user, name, description },
                        ),
                        ..*self
                    },
                )
            }
        }
    }

    /// Deleting an account: refused while a transaction references it.
    pub open spec fn del_account_result(&self, id: i64) -> Result<LedgerView, LedgerError> {
        if !has_account_id(self.accounts, id) {
            Err(LedgerError::NotFound)
        } else if account_in_use(self.txs, id) {
            Err(LedgerError::Referenced)
        } else {
            Ok(
                LedgerView {
                    accounts: self.accounts.remove(account_pos(self.accounts, id)),
                    ..*self
                },
            )
        }
    }

    /// Deleting a category: refused while a transaction references it.
    pub open spec fn del_category_result(&self, id: i64) -> Result<LedgerView, LedgerError> {
        if !has_category_id(self.categories, id) {
            Err(LedgerError::NotFound)
        } else if category_in_use(self.txs, id) {
            Err(LedgerError::Referenced)
        } else {
            Ok(
                LedgerView {
                    categories: self.categories.remove(category_pos(self.categories, id)),
                    ..*self
                },
            )
        }
    }

    /// The identifier counter after storing a row with identifier `id`.
    pub open spec fn counter_after(&self, id: i64) -> i64 {
        if id >= self.next_id {
            (id + 1) as i64
        } else {
            self.next_id
        }
    }

    /// Loading a stored account row: its identifier must be in range and
    /// unused, its (user, name) pair free.
    pub open spec fn load_account_result(&self, row: AccountRow) -> Result<LedgerView, LedgerError> {
        if row.id < 1 || row.id == i64::MAX {
            Err(LedgerError::OutOfRange)
        } else if has_account_id(self.accounts, row.id) || has_account_named(
            self.accounts,
            row.user_id,
            row.name@,
        ) {
            Err(LedgerError::Conflict)
        } else {
            Ok(
                LedgerView {
                    accounts: self.accounts.push(row),
                    next_id: self.counter_after(row.id),
                    ..*self
                },
            )
        }
    }

    /// Loading a stored category row: its identifier must be in range and
    /// unused, its (user, name) pair free.
    pub open spec fn load_category_result(&self, row: CategoryRow) -> Result<
        LedgerView,
        LedgerError,
    > {
        if row.id < 1 || row.id == i64::MAX {
            Err(LedgerError::OutOfRange)
        } else if has_category_id(self.categories, row.id) || has_category_named(
            self.categories,
            row.user_id,
            row.name@,
        ) {
            Err(LedgerError::Conflict)
        } else {
            Ok(
                LedgerView {
                    categories: self.categories.push(row),
                    next_id: self.counter_after(row.id),
                    ..*self
                },
            )
        }
    }

    /// Loading a stored transaction row: identifier in range, amount
    /// positive, account and category stored, identifier unused for its kind.
    pub open spec fn load_tx_result(&self, row: TxRow) -> Result<LedgerView, LedgerError> {
        if row.id < 1 || row.id == i64::MAX || row.amount <= 0 {
            Err(LedgerError::OutOfRange)
        } else if !has_account_id(self.accounts, row.account_id) || !has_category_id(
            self.categories,
            row.category_id,
        ) {
            Err(LedgerError::NotFound)
        } else if has_tx(self.txs, row.kind, row.id) {
            Err(LedgerError::Conflict)
        } else {
            Ok(
                LedgerView {
                    txs: self.txs.push(row),
                    next_id: self.counter_after(row.id),
                    ..*self
                },
            )
        }
    }

    /// The listed form of transaction `t`: its account and category by name.
    pub open spec fn account_name_of(&self, t: TxRow) -> String {
        self.accounts[account_pos(self.accounts, t.account_id)].name
    }

    pub open spec fn category_name_of(&self, t: TxRow) -> String {
        self.categories[category_pos(self.categories, t.category_id)].name
    }

    /// The expenses of `user` among `txs`, in stored order.
    pub open spec fn expenses_in(&self, txs: Seq<TxRow>, user: i64) -> Seq<Expenses>
        decreases txs.len(),
    {
        if txs.len() == 0 {
            Seq::empty()
        } else {
            let t = txs.last();
            let rest = self.expenses_in(txs.drop_last(), user);
            if t.user_id == user && t.kind == TxKind::Expense {
                rest.push(
                    Expenses {
                        id: t.id,
                        account: self.account_name_of(t),
                        category: self.category_name_of(t),
                        amount: t.amount,
                        user_id: t.user_id,
                    },
                )
            } else {
                rest
            }
        }
    }

    /// The income records of `user` among `txs`, in stored order.
    pub open spec fn income_in(&self, txs: Seq<TxRow>, user: i64) -> Seq<Income>
        decreases txs.len(),
    {
        if txs.len() == 0 {
            Seq::empty()
        } else {
            let t = txs.last();
            let rest = self.income_in(txs.drop_last(), user);
            if t.user_id == user && t.kind == TxKind::Income {
                rest.push(
                    Income {
                        id: t.id,
                        account: self.account_name_of(t),
                        category: self.category_name_of(t),
                        amount: t.amount,
                        user_id: t.user_id,
                    },
                )
            } else {
                rest
            }
        }
    }
}

/// The accounts of `user` among `accs`, in stored order.
pub open spec fn accounts_of(accs: Seq<AccountRow>, user: i64) -> Seq<Accounts>
    decreases accs.len(),
{
    if accs.len() == 0 {
        Seq::empty()
    } else {
        let a = accs.last();
        let rest = accounts_of(accs.drop_last(), user);
        if a.user_id == user {
            rest.push(Accounts { id: Some(a.id), name: a.name, balance: a.balance, user_id: a.user_id })
        } else {
            rest
        }
    }
}

/// The categories of `user` among `cats`, in stored order.
pub open spec fn categories_of(cats: Seq<CategoryRow>, user: i64) -> Seq<Categories>
    decreases cats.len(),
{
    if cats.len() == 0 {
        Seq::empty()
    } else {
        let c = cats.last();
        let rest = categories_of(cats.drop_last(), user);
        if c.user_id == user {
            rest.push(
                Categories {
                    id: Some(c.id),
                    name: c.name,
                    user_id: c.user_id,
                    description: c.description,
                },
            )
        } else {
            rest
        }
    }
}

/// Sum of the balances of the accounts of `user` among `accs`.
pub open spec fn total_of(accs: Seq<AccountRow>, user: i64) -> int
    decreases accs.len(),
{
    if accs.len() == 0 {
        0
    } else {
        let a = accs.last();
        total_of(accs.drop_last(), user) + if a.user_id == user {
            a.balance as int
        } else {
            0
        }
    }
}

/// The view after an operation whose outcome is `res`: unchanged on error.
pub open spec fn after(v: LedgerView, res: Result<LedgerView, LedgerError>) -> LedgerView {
    match res {
        Ok(w) => w,
        Err(_) => v,
    }
}

/// `r` reports `res`: `Ok` exactly when `res` is, the same error otherwise.
pub open spec fn reports<T>(r: Result<T, LedgerError>, res: Result<LedgerView, LedgerError>) -> bool {
    match res {
        Ok(_) => r is Ok,
        Err(e) => r == Err::<T, LedgerError>(e),
    }
}

} // verus!
