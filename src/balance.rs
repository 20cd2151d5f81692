use vstd::prelude::*;

use crate::model::{delta_of, fits_i64, LedgerError, TxKind};

verus! {

/// The signed effect of a transaction on its account: `amount` for an
/// income, `-amount` for an expense.
pub fn delta_for(kind: TxKind, amount: i64) -> (r: i64)
    requires
        amount > 0,
    ensures
        r == delta_of(kind, amount as int),
{
    match kind {
        TxKind::Income => amount,
        TxKind::Expense => -amount,
    }
}

/// The balance after applying `delta` to `balance`. Negative balances are
/// allowed; only leaving the range of `i64` is refused.
pub fn apply_delta(balance: i64, delta: i64) -> (r: Result<i64, LedgerError>)
    ensures
        fits_i64(balance + delta) ==> r == Ok::<i64, LedgerError>((balance + delta) as i64),
        !fits_i64(balance + delta) ==> r == Err::<i64, LedgerError>(LedgerError::OutOfRange),
{
    match balance.checked_add(delta) {
        Some(b) => Ok(b),
        None => Err(LedgerError::OutOfRange),
    }
}

} // verus!
