use vstd::prelude::*;

use crate::model::{
    account_named_pos, account_pos, accounts_of, after, categories_of, delta_of, has_account_id,
    has_account_named, has_category_named, has_tx, net, tx_pos, AccountRow,
    CategoryRow, LedgerError, LedgerView, TxKind, TxRow,
};
use crate::preserve::{lemma_add_keeps_wf, lemma_del_keeps_wf, lemma_edit_account_keeps_wf};

verus! {

/// A transaction operation as a caller issues it: `add_expense` /
/// `add_income`, or `del_expense` / `del_income`.
pub enum LedgerOp {
    Add { user_id: i64, kind: TxKind, amount: i64, category: Seq<char>, account: Seq<char> },
    Delete { kind: TxKind, id: i64 },
}

/// The ledger after `op`, whether it succeeded or failed.
pub open spec fn step(v: LedgerView, op: LedgerOp) -> LedgerView {
    match op {
        LedgerOp::Add { user_id, kind, amount, category, account } => after(
            v,
            v.add_result(user_id, kind, amount, category, account),
        ),
        LedgerOp::Delete { kind, id } => after(v, v.del_result(kind, id)),
    }
}

/// The ledger after the operations `ops`, in order.
pub open spec fn run(v: LedgerView, ops: Seq<LedgerOp>) -> LedgerView
    decreases ops.len(),
{
    if ops.len() == 0 {
        v
    } else {
        step(run(v, ops.drop_last()), ops.last())
    }
}

/// An operation that callers can issue: amounts are positive.
pub open spec fn admissible(op: LedgerOp) -> bool {
    match op {
        LedgerOp::Add { amount, .. } => amount > 0,
        LedgerOp::Delete { .. } => true,
    }
}

/// How far the stored balance of `id` is from the sum of the deltas of its
/// current transactions: its opening balance plus manual corrections.
pub open spec fn drift(v: LedgerView, id: i64) -> int {
    v.balance_of(id) - net(v.txs, id)
}

/// In a well formed ledger the account with identifier `accs[i].id` is at `i`.
proof fn lemma_account_pos(v: LedgerView, i: int)
    requires
        v.wf(),
        0 <= i < v.accounts.len(),
    ensures
        account_pos(v.accounts, v.accounts[i].id) == i,
{
}

/// Removing the transaction at `j` takes its delta out of the net of its
/// account.
proof fn lemma_net_remove(txs: Seq<TxRow>, j: int, id: i64)
    requires
        0 <= j < txs.len(),
    ensures
        net(txs.remove(j), id) == net(txs, id) - if txs[j].account_id == id {
            delta_of(txs[j].kind, txs[j].amount as int)
        } else {
            0
        },
    decreases txs.len(),
{
    if j == txs.len() - 1 {
        assert(txs.remove(j) =~= txs.drop_last());
    } else {
        lemma_net_remove(txs.drop_last(), j, id);
        assert(txs.remove(j).drop_last() =~= txs.drop_last().remove(j));
        assert(txs.remove(j).last() == txs.last());
    }
}

/// One operation keeps the ledger well formed, keeps account `id`, and
/// leaves the drift of `id` where it was.
proof fn lemma_step_keeps_drift(v: LedgerView, op: LedgerOp, id: i64)
    requires
        v.wf(),
        admissible(op),
        has_account_id(v.accounts, id),
    ensures
        step(v, op).wf(),
        has_account_id(step(v, op).accounts, id),
        drift(step(v, op), id) == drift(v, id),
{
    let p = account_pos(v.accounts, id);
    lemma_account_pos(v, p);
    match op {
        LedgerOp::Add { user_id, kind, amount, category, account } => {
            lemma_add_keeps_wf(v, user_id, kind, amount, category, account);
            if let Ok(w) = v.add_result(user_id, kind, amount, category, account) {
                assert(w.accounts[p].id == id);
                lemma_account_pos(w, p);
                assert(w.txs.drop_last() =~= v.txs);
            }
        },
        LedgerOp::Delete { kind, id: tid } => {
            lemma_del_keeps_wf(v, kind, tid);
            if let Ok(w) = v.del_result(kind, tid) {
                let j = tx_pos(v.txs, kind, tid);
                assert(v.txs[j].amount > 0);
                lemma_account_pos(v, account_pos(v.accounts, v.txs[j].account_id));
                assert(w.accounts[p].id == id);
                lemma_account_pos(w, p);
                lemma_net_remove(v.txs, j, id);
            }
        },
    }
}

/// Balance conservation: over any sequence of transaction additions and
/// deletions, each of which may succeed or fail, the stored balance of an
/// account and the sum of the signed deltas of its current transactions
/// (income positive, expense negative) move together; their difference is
/// the balance the account had before the first of them.
pub proof fn lemma_balance_conservation(v: LedgerView, ops: Seq<LedgerOp>, id: i64)
    requires
        v.wf(),
        has_account_id(v.accounts, id),
        forall|k: int| 0 <= k < ops.len() ==> admissible(#[trigger] ops[k]),
    ensures
        run(v, ops).wf(),
        has_account_id(run(v, ops).accounts, id),
        run(v, ops).balance_of(id) - net(run(v, ops).txs, id) == v.balance_of(id) - net(
            v.txs,
            id,
        ),
    decreases ops.len(),
{
    if ops.len() > 0 {
        let init = ops.drop_last();
        assert forall|k: int| 0 <= k < init.len() implies admissible(#[trigger] init[k]) by {
            assert(init[k] == ops[k]);
        }
        lemma_balance_conservation(v, init, id);
        lemma_step_keeps_drift(run(v, init), ops.last(), id);
    }
}

/// Round trip: when adding a transaction succeeds, deleting it right after
/// succeeds as well and gives back the accounts, categories and transactions
/// exactly as they were, so every balance is restored and every listing is
/// as before; only the identifier counter has moved on.
pub proof fn lemma_add_then_delete(
    v: LedgerView,
    user_id: i64,
    kind: TxKind,
    amount: i64,
    category: Seq<char>,
    account: Seq<char>,
)
    requires
        v.wf(),
        amount > 0,
        v.add_result(user_id, kind, amount, category, account) is Ok,
    ensures
        ({
            let w = v.add_result(user_id, kind, amount, category, account).unwrap();
            &&& w.del_result(kind, v.next_id) is Ok
            &&& w.del_result(kind, v.next_id).unwrap().accounts == v.accounts
            &&& w.del_result(kind, v.next_id).unwrap().categories == v.categories
            &&& w.del_result(kind, v.next_id).unwrap().txs == v.txs
        }),
{
    let w = v.add_result(user_id, kind, amount, category, account).unwrap();
    lemma_add_keeps_wf(v, user_id, kind, amount, category, account);
    let n = v.txs.len() as int;
    assert(w.txs[n].id == v.next_id && w.txs[n].kind == kind);
    assert(has_tx(w.txs, kind, v.next_id));
    let j = tx_pos(w.txs, kind, v.next_id);
    assert(j == n);
    let i = account_named_pos(v.accounts, user_id, account);
    lemma_account_pos(w, i);
    let u = w.del_result(kind, v.next_id).unwrap();
    assert(u.accounts[i] == v.accounts[i]);
    assert(u.accounts =~= v.accounts);
    assert(u.txs =~= v.txs);
}

/// A failed resolution has no effect: adding a transaction that names a
/// category or an account that its user does not have returns `NotFound`
/// and leaves the ledger as it was.
pub proof fn lemma_unresolved_add(
    v: LedgerView,
    user_id: i64,
    kind: TxKind,
    amount: i64,
    category: Seq<char>,
    account: Seq<char>,
)
    requires
        !has_category_named(v.categories, user_id, category) || !has_account_named(
            v.accounts,
            user_id,
            account,
        ),
    ensures
        v.add_result(user_id, kind, amount, category, account) == Err::<LedgerView, LedgerError>(
            LedgerError::NotFound,
        ),
        step(v, LedgerOp::Add { user_id, kind, amount, category, account }) == v,
{
}

proof fn lemma_accounts_owned(accs: Seq<AccountRow>, user: i64)
    ensures
        forall|i: int|
            0 <= i < accounts_of(accs, user).len() ==> #[trigger] accounts_of(accs, user)[i].user_id
                == user,
    decreases accs.len(),
{
    if accs.len() > 0 {
        lemma_accounts_owned(accs.drop_last(), user);
    }
}

proof fn lemma_categories_owned(cats: Seq<CategoryRow>, user: i64)
    ensures
        forall|i: int|
            0 <= i < categories_of(cats, user).len() ==> #[trigger] categories_of(cats, user)[i].user_id
                == user,
    decreases cats.len(),
{
    if cats.len() > 0 {
        lemma_categories_owned(cats.drop_last(), user);
    }
}

proof fn lemma_expenses_owned(v: LedgerView, txs: Seq<TxRow>, user: i64)
    ensures
        forall|i: int|
            0 <= i < v.expenses_in(txs, user).len() ==> #[trigger] v.expenses_in(txs, user)[i].user_id
                == user,
    decreases txs.len(),
{
    if txs.len() > 0 {
        let rest = v.expenses_in(txs.drop_last(), user);
        lemma_expenses_owned(v, txs.drop_last(), user);
        assert forall|i: int| 0 <= i < v.expenses_in(txs, user).len() implies #[trigger] v.expenses_in(
            txs,
            user,
        )[i].user_id == user by {
            if i < rest.len() {
                assert(rest[i].user_id == user);
            }
        }
    }
}

proof fn lemma_income_owned(v: LedgerView, txs: Seq<TxRow>, user: i64)
    ensures
        forall|i: int|
            0 <= i < v.income_in(txs, user).len() ==> #[trigger] v.income_in(txs, user)[i].user_id
                == user,
    decreases txs.len(),
{
    if txs.len() > 0 {
        let rest = v.income_in(txs.drop_last(), user);
        lemma_income_owned(v, txs.drop_last(), user);
        assert forall|i: int| 0 <= i < v.income_in(txs, user).len() implies #[trigger] v.income_in(
            txs,
            user,
        )[i].user_id == user by {
            if i < rest.len() {
                assert(rest[i].user_id == user);
            }
        }
    }
}

/// Scope isolation: what the listings of `get_accounts`, `get_categories`,
/// `get_expense` and `get_income` return for user `a` holds nothing that
/// user `b` owns.
pub proof fn lemma_scope_isolation(v: LedgerView, a: i64, b: i64)
    requires
        a != b,
    ensures
        forall|i: int|
            0 <= i < accounts_of(v.accounts, a).len() ==> #[trigger] accounts_of(v.accounts, a)[i].user_id
                != b,
        forall|i: int|
            0 <= i < categories_of(v.categories, a).len() ==> #[trigger] categories_of(
                v.categories,
                a,
            )[i].user_id != b,
        forall|i: int|
            0 <= i < v.expenses_in(v.txs, a).len() ==> #[trigger] v.expenses_in(v.txs, a)[i].user_id
                != b,
        forall|i: int|
            0 <= i < v.income_in(v.txs, a).len() ==> #[trigger] v.income_in(v.txs, a)[i].user_id
                != b,
{
    lemma_accounts_owned(v.accounts, a);
    lemma_categories_owned(v.categories, a);
    lemma_expenses_owned(v, v.txs, a);
    lemma_income_owned(v, v.txs, a);
}

/// Manual overwrite: editing account `id` sets its balance to exactly
/// `balance`, whatever its transactions; a transaction added to it
/// afterwards moves the balance from that value.
pub proof fn lemma_overwrite_then_add(
    v: LedgerView,
    id: i64,
    name: String,
    balance: i64,
    kind: TxKind,
    amount: i64,
    category: Seq<char>,
)
    requires
        v.wf(),
        amount > 0,
        v.edit_account_result(id, name, balance) is Ok,
    ensures
        ({
            let w = v.edit_account_result(id, name, balance).unwrap();
            let owner = v.accounts[account_pos(v.accounts, id)].user_id;
            &&& w.balance_of(id) == balance
            &&& w.add_result(owner, kind, amount, category, name@) is Ok ==> w.add_result(
                owner,
                kind,
                amount,
                category,
                name@,
            ).unwrap().balance_of(id) == balance + delta_of(kind, amount as int)
        }),
{
    let w = v.edit_account_result(id, name, balance).unwrap();
    let i = account_pos(v.accounts, id);
    let owner = v.accounts[i].user_id;
    lemma_edit_account_keeps_wf(v, id, name, balance);
    assert(w.accounts[i].id == id);
    lemma_account_pos(w, i);
    if let Ok(u) = w.add_result(owner, kind, amount, category, name@) {
        assert(w.accounts[i].user_id == owner && w.accounts[i].name@ == name@);
        assert(account_named_pos(w.accounts, owner, name@) == i);
        assert(u.accounts[i].id == id);
        lemma_add_keeps_wf(w, owner, kind, amount, category, name@);
        lemma_account_pos(u, i);
    }
}

} // verus!

verus! {

/// Manual overwrite, then deletion: after account `id` is edited to
/// `balance`, deleting one of its transactions moves the balance from that
/// value by the transaction's reversed delta.
pub proof fn lemma_overwrite_then_delete(
    v: LedgerView,
    id: i64,
    name: String,
    balance: i64,
    kind: TxKind,
    tid: i64,
)
    requires
        v.wf(),
        v.edit_account_result(id, name, balance) is Ok,
        has_tx(v.txs, kind, tid),
        v.txs[tx_pos(v.txs, kind, tid)].account_id == id,
    ensures
        ({
            let w = v.edit_account_result(id, name, balance).unwrap();
            let t = v.txs[tx_pos(v.txs, kind, tid)];
            &&& w.balance_of(id) == balance
            &&& w.del_result(kind, tid) is Ok ==> w.del_result(kind, tid).unwrap().balance_of(id)
                == balance - delta_of(kind, t.amount as int)
        }),
{
    let w = v.edit_account_result(id, name, balance).unwrap();
    let i = account_pos(v.accounts, id);
    lemma_edit_account_keeps_wf(v, id, name, balance);
    assert(w.accounts[i].id == id);
    lemma_account_pos(w, i);
    if let Ok(u) = w.del_result(kind, tid) {
        lemma_del_keeps_wf(w, kind, tid);
        assert(u.accounts[i].id == id);
        lemma_account_pos(u, i);
    }
}

} // verus!
