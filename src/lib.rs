//! Turns rows of a bank's CSV export into double-entry ledger text, driven by
//! a column layout and a table of per-description rules.
use vstd::prelude::*;

pub mod amount;
pub mod date;
pub mod config;
pub mod ledger;

verus! {

} // verus!
