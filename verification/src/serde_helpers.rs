//! Plain value types shared by several records: durations and sums of money.
use vstd::prelude::*;

verus! {

/// A duration in whole seconds, with its ISO 8601 spelling where one was given.
#[derive(Debug, Clone, PartialEq, Eq)]
pub struct Duration {
    pub seconds: u64,
    pub iso8601: Option<String>,
}

/// A sum of money in the currency's minor unit.
#[derive(Debug, Clone, PartialEq, Eq)]
pub struct Money {
    pub currency: String,
    pub amount_minor: i64,
}

} // verus!
