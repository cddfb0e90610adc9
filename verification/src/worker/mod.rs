//! Automation workers: the capabilities granted to them, their advisory requests
//! and the submissions and results they exchange.
use vstd::prelude::*;

use crate::advisory_candidate::CandidateKind;
use crate::authority::AuthoritySource;
use crate::ids::UbuId;
use crate::json::JsonValue;
use crate::serde_helpers::{Duration, Money};
use crate::time::UbuTimestamp;

verus! {

/// What a worker may do in the advisory lane.
#[non_exhaustive]
#[derive(Debug, Clone, Copy, PartialEq, Eq, PartialOrd, Ord, Hash, Structural)]
pub enum AdvisoryCapability {
    ProposeCandidate(CandidateKind),
    EmitDiagnostics,
    EmitTelemetry,
}

/// The capabilities granted to one worker, under an authority, until a deadline.
#[derive(Debug, Clone, PartialEq, Eq)]
pub struct WorkerAuthority {
    pub worker_id: UbuId,
    pub authority_source: AuthoritySource,
    /// The granted capabilities, each once.
    pub granted: Vec<AdvisoryCapability>,
    pub deadline: Option<UbuTimestamp>,
}

impl WorkerAuthority {
    /// Whether the worker was granted the proposal of candidates of `kind`.
    pub fn may_propose(&self, kind: CandidateKind) -> (r: bool)
        ensures
            r == self.granted@.contains(AdvisoryCapability::ProposeCandidate(kind)),
    {
        let wanted = AdvisoryCapability::ProposeCandidate(kind);
        let mut i: usize = 0;
        while i < self.granted.len()
            invariant
                wanted == AdvisoryCapability::ProposeCandidate(kind),
                i <= self.granted@.len(),
                forall|j: int| 0 <= j < i ==> #[trigger] self.granted@[j] != wanted,
            decreases self.granted@.len() - i,
        {
            if self.granted[i] == wanted {
                assert(self.granted@[i as int] == wanted);
                assert(self.granted@.contains(wanted));
                return true;
            }
            i = i + 1;
        }
        false
    }
}

/// A request for advice on running a GPU workload.
#[derive(Debug, Clone, PartialEq, Eq)]
pub struct GpuAdvisoryRequest {
    pub request_id: String,
    pub requested_at: UbuTimestamp,
    pub workload: String,
    pub estimated_duration: Option<Duration>,
    pub max_cost: Option<Money>,
}

#[derive(Debug, Clone, Copy, PartialEq, Eq, Hash, Structural)]
pub enum GpuAdvisoryRecommendation {
    RunNow,
    Defer,
    Split,
    ManualReview,
}

/// The advice given on a GPU workload.
#[derive(Debug, Clone, PartialEq, Eq)]
pub struct GpuAdvisoryResponse {
    pub request_id: String,
    pub responded_at: UbuTimestamp,
    pub recommendation: GpuAdvisoryRecommendation,
    pub rationale: Option<String>,
    pub estimated_cost: Option<Money>,
}

/// Work handed to a worker under its authority.
#[derive(Debug, PartialEq)]
pub struct WorkerSubmission {
    pub submission_id: String,
    pub submitted_at: UbuTimestamp,
    pub authority: WorkerAuthority,
    pub payload: JsonValue,
}

#[derive(Debug, Clone, Copy, PartialEq, Eq, Hash, Structural)]
pub enum WorkerResultStatus {
    Succeeded,
    Failed,
    NeedsReview,
}

/// What a worker gave back for a submission.
#[derive(Debug, PartialEq)]
pub struct WorkerResult {
    pub submission_id: String,
    pub completed_at: UbuTimestamp,
    pub status: WorkerResultStatus,
    pub output: Option<JsonValue>,
}

} // verus!
