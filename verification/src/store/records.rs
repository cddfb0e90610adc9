//! Admitted and candidate objects as the store holds them, and the triggers that
//! ask for a plan to be recalculated.
use vstd::prelude::*;

use crate::authority::AuthoritySource;
use crate::json::JsonValue;
use crate::object_ref::ObjectRef;
use crate::time::UbuTimestamp;

verus! {

/// An object the store admitted, and when.
#[derive(Debug, PartialEq)]
pub struct AdmittedObject {
    pub object: JsonValue,
    pub admitted_at: UbuTimestamp,
}

/// An object submitted for admission, under an authority.
#[derive(Debug, PartialEq)]
pub struct CandidateObject {
    pub candidate_id: String,
    pub object_type: String,
    pub payload: JsonValue,
    pub submitted_at: UbuTimestamp,
    pub authority_source: AuthoritySource,
}

#[derive(Debug, Clone, Copy, PartialEq, Eq, Hash, Structural)]
pub enum TriggerType {
    TaskCompleted,
    TaskFailed,
    TaskMoot,
    UserOverride,
    ObservedSnapshot,
    ExternalEvent,
    GithubUpdate,
    LowCompactCalendarCoverage,
    WorkerRequest,
}

/// A reason to recalculate, the objects it concerns, and when it happened.
#[derive(Debug, Clone, PartialEq, Eq)]
pub struct RecalculationTrigger {
    pub triggered_at: UbuTimestamp,
    pub trigger_type: TriggerType,
    pub note: Option<String>,
    pub objects: Vec<ObjectRef>,
}

} // verus!
