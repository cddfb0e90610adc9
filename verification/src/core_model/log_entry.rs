//! Log entries and the payload that records a Compartment boundary decision.
use vstd::prelude::*;

use crate::authority::AuthoritySource;
use crate::ids::UbuId;
use crate::object_ref::ObjectRef;
use crate::policy_summary::Legitimization;
use crate::provenance::Provenance;
use crate::time::UbuTimestamp;

verus! {

#[derive(Debug, PartialEq, Eq)]
pub struct LogEntry {
    pub id: UbuId,
    pub subject: Option<ObjectRef>,
    pub message: String,
    pub logged_at: UbuTimestamp,
    pub authority_source: AuthoritySource,
}

/// The policy member whose evaluation decided a boundary crossing.
#[derive(Debug, Clone, Copy, PartialEq, Eq, Hash, Structural)]
pub enum PolicyMember {
    LocalOnly,
    NoCloudLlm,
    NoExternalExport,
}

/// What is logged when a Compartment boundary decision is made.
#[derive(Debug, PartialEq, Eq)]
pub struct CompartmentBoundaryDecidedPayload {
    pub compartment_ref: ObjectRef,
    pub member_evaluated: PolicyMember,
    pub adjudication_result: Legitimization,
    pub actor_identity_ref: ObjectRef,
    pub authority_source: AuthoritySource,
    pub reason: String,
    pub effective_time: UbuTimestamp,
    pub provenance: Provenance,
}

} // verus!
