//! The summary of a resolved Compartment policy.
use vstd::prelude::*;

use crate::time::UbuTimestamp;

verus! {

/// The outcome of adjudicating a request against policy.
#[derive(Debug, Clone, Copy, PartialEq, Eq, Hash, Structural)]
pub enum Legitimization {
    Accepted,
    NeedsReview,
    Rejected,
}

/// The wire spelling of a legitimization.
pub open spec fn legitimization_wire(l: Legitimization) -> Seq<char> {
    match l {
        Legitimization::Accepted => "accepted"@,
        Legitimization::NeedsReview => "needs_review"@,
        Legitimization::Rejected => "rejected"@,
    }
}

impl Legitimization {
    /// The wire spelling of this legitimization.
    pub fn wire(self) -> (r: &'static str)
        ensures
            r@ == legitimization_wire(self),
    {
        match self {
            Legitimization::Accepted => "accepted",
            Legitimization::NeedsReview => "needs_review",
            Legitimization::Rejected => "rejected",
        }
    }
}

#[derive(Debug, PartialEq, Eq)]
pub struct PolicySummary {
    pub legitimization: Legitimization,
    pub adjudication_reasons: Vec<String>,
    pub local_only: Option<bool>,
    pub no_cloud_llm: Option<bool>,
    pub no_external_export: Option<bool>,
    pub checked_at: UbuTimestamp,
}

} // verus!
