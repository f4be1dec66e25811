//! Off-ledger core of a token distribution: it watches a vault, decides when
//! its balance reaches the distribution threshold, draws winners among the
//! holders of a marker token, and shapes the distribution transaction.
use vstd::prelude::*;

pub mod actor;
pub mod address;
pub mod balance;
pub mod distributor_state;
pub mod holders;
pub mod transaction;

verus! {

} // verus!
