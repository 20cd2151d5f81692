// A personal-finance ledger: accounts, categories, and the expenses and
// income recorded against them, with every stored balance kept equal to its
// opening value plus the deltas of its transactions.
use vstd::prelude::*;

pub mod balance;
pub mod laws;
pub mod ledger;
pub mod model;
mod preserve;

verus! {

} // verus!
