use vstd::prelude::*;

use crate::model::{
    account_named_pos, account_pos, after, category_named_pos, has_account_id, has_category_id,
    tx_pos, AccountRow, CategoryRow, LedgerView, TxKind,
};

verus! {

/// Replacing rows without changing identifiers keeps every identifier present.
pub(crate) proof fn lemma_same_ids(a: Seq<AccountRow>, b: Seq<AccountRow>)
    requires
        a.len() == b.len(),
        forall|k: int| 0 <= k < a.len() ==> a[k].id == #[trigger] b[k].id,
    ensures
        forall|id: i64| has_account_id(a, id) ==> has_account_id(b, id),
{
    assert forall|id: i64| has_account_id(a, id) implies has_account_id(b, id) by {
        let k = choose|k: int| 0 <= k < a.len() && a[k].id == id;
        assert(b[k].id == id);
    }
}

/// Replacing category rows without changing identifiers keeps every
/// identifier present.
pub(crate) proof fn lemma_same_category_ids(a: Seq<CategoryRow>, b: Seq<CategoryRow>)
    requires
        a.len() == b.len(),
        forall|k: int| 0 <= k < a.len() ==> a[k].id == #[trigger] b[k].id,
    ensures
        forall|id: i64| has_category_id(a, id) ==> has_category_id(b, id),
{
    assert forall|id: i64| has_category_id(a, id) implies has_category_id(b, id) by {
        let k = choose|k: int| 0 <= k < a.len() && a[k].id == id;
        assert(b[k].id == id);
    }
}

/// When the transactions stay and every account and category that was
/// present stays present, the transactions still reference stored rows.
pub(crate) proof fn lemma_refs_kept(v: LedgerView, w: LedgerView)
    requires
        v.wf(),
        w.txs == v.txs,
        forall|id: i64| has_account_id(v.accounts, id) ==> has_account_id(w.accounts, id),
        forall|id: i64| has_category_id(v.categories, id) ==> has_category_id(w.categories, id),
    ensures
        forall|j: int|
            0 <= j < w.txs.len() ==> {
                &&& #[trigger] w.txs[j].amount > 0
                &&& has_account_id(w.accounts, w.txs[j].account_id)
                &&& has_category_id(w.categories, w.txs[j].category_id)
            },
{
    assert forall|j: int| 0 <= j < w.txs.len() implies {
        &&& #[trigger] w.txs[j].amount > 0
        &&& has_account_id(w.accounts, w.txs[j].account_id)
        &&& has_category_id(w.categories, w.txs[j].category_id)
    } by {
        assert(v.txs[j].amount > 0);
    }
}

/// Recording a transaction keeps the ledger well formed.
pub(crate) proof fn lemma_add_keeps_wf(
    v: LedgerView,
    user_id: i64,
    kind: TxKind,
    amount: i64,
    category: Seq<char>,
    account: Seq<char>,
)
    requires
        v.wf(),
        amount > 0,
    ensures
        after(v, v.add_result(user_id, kind, amount, category, account)).wf(),
{
    if let Ok(w) = v.add_result(user_id, kind, amount, category, account) {
        let i = account_named_pos(v.accounts, user_id, account);
        let c = category_named_pos(v.categories, user_id, category);
        let row = w.txs.last();
        assert forall|k: int| 0 <= k < v.accounts.len() implies v.accounts[k].id
            == #[trigger] w.accounts[k].id by {}
        lemma_same_ids(v.accounts, w.accounts);
        assert forall|j: int| 0 <= j < w.txs.len() implies has_account_id(
            w.accounts,
            #[trigger] w.txs[j].account_id,
        ) by {
            if j < v.txs.len() {
                assert(w.txs[j] == v.txs[j]);
                assert(v.txs[j].amount > 0);
            } else {
                assert(w.accounts[i].id == row.account_id);
            }
        }
        assert forall|j: int| 0 <= j < w.txs.len() implies has_category_id(
            w.categories,
            #[trigger] w.txs[j].category_id,
        ) by {
            if j < v.txs.len() {
                assert(w.txs[j] == v.txs[j]);
                assert(v.txs[j].amount > 0);
            } else {
                assert(w.categories[c].id == row.category_id);
            }
        }
        assert forall|a: int, b: int|
            0 <= a < w.accounts.len() && 0 <= b < w.accounts.len() && a != b implies {
            &&& w.accounts[a].id != w.accounts[b].id
            &&& (w.accounts[a].user_id != w.accounts[b].user_id || w.accounts[a].name@
                != w.accounts[b].name@)
        } by {
            assert(v.accounts[a].id == w.accounts[a].id && v.accounts[b].id == w.accounts[b].id);
            assert(v.accounts[a].name == w.accounts[a].name && v.accounts[b].name
                == w.accounts[b].name);
        }
    }
}

/// Deleting a transaction keeps the ledger well formed.
pub(crate) proof fn lemma_del_keeps_wf(v: LedgerView, kind: TxKind, id: i64)
    requires
        v.wf(),
    ensures
        after(v, v.del_result(kind, id)).wf(),
{
    if let Ok(w) = v.del_result(kind, id) {
        let j = tx_pos(v.txs, kind, id);
        assert(v.txs[j].amount > 0);
        assert forall|k: int| 0 <= k < v.accounts.len() implies v.accounts[k].id
            == #[trigger] w.accounts[k].id by {}
        lemma_same_ids(v.accounts, w.accounts);
        assert forall|q: int| 0 <= q < w.txs.len() implies {
            &&& has_account_id(w.accounts, #[trigger] w.txs[q].account_id)
            &&& has_category_id(w.categories, w.txs[q].category_id)
        } by {
            let p = if q < j { q } else { q + 1 };
            assert(w.txs[q] == v.txs[p]);
            assert(v.txs[p].amount > 0);
        }
        assert forall|a: int, b: int|
            0 <= a < w.txs.len() && 0 <= b < w.txs.len() && a != b implies w.txs[a].id
            != w.txs[b].id || w.txs[a].kind != w.txs[b].kind by {
            let pa = if a < j { a } else { a + 1 };
            let pb = if b < j { b } else { b + 1 };
            assert(w.txs[a] == v.txs[pa] && w.txs[b] == v.txs[pb]);
        }
        assert forall|a: int, b: int|
            0 <= a < w.accounts.len() && 0 <= b < w.accounts.len() && a != b implies {
            &&& w.accounts[a].id != w.accounts[b].id
            &&& (w.accounts[a].user_id != w.accounts[b].user_id || w.accounts[a].name@
                != w.accounts[b].name@)
        } by {
            assert(v.accounts[a].id == w.accounts[a].id && v.accounts[b].id == w.accounts[b].id);
            assert(v.accounts[a].name == w.accounts[a].name && v.accounts[b].name
                == w.accounts[b].name);
        }
    }
}

/// Overwriting an account's name and balance keeps the ledger well formed.
pub(crate) proof fn lemma_edit_account_keeps_wf(v: LedgerView, id: i64, name: String, balance: i64)
    requires
        v.wf(),
    ensures
        after(v, v.edit_account_result(id, name, balance)).wf(),
{
    if let Ok(w) = v.edit_account_result(id, name, balance) {
        let i = account_pos(v.accounts, id);
        assert forall|k: int| 0 <= k < v.accounts.len() implies v.accounts[k].id
            == #[trigger] w.accounts[k].id by {}
        lemma_same_ids(v.accounts, w.accounts);
        lemma_refs_kept(v, w);
        assert forall|a: int, b: int|
            0 <= a < w.accounts.len() && 0 <= b < w.accounts.len() && a != b implies {
            &&& w.accounts[a].id != w.accounts[b].id
            &&& (w.accounts[a].user_id != w.accounts[b].user_id || w.accounts[a].name@
                != w.accounts[b].name@)
        } by {
            assert(v.accounts[a].id == w.accounts[a].id && v.accounts[b].id == w.accounts[b].id);
            assert(v.accounts[a].user_id == w.accounts[a].user_id && v.accounts[b].user_id
                == w.accounts[b].user_id);
            if a != i && b != i {
                assert(w.accounts[a] == v.accounts[a] && w.accounts[b] == v.accounts[b]);
            }
        }
    }
}

} // verus!
