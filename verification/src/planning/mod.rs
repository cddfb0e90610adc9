//! The planning kernel's exchange records: requests, plans, responses and repairs.
use vstd::prelude::*;

use crate::authority::AuthoritySource;
use crate::core_model::task::{Task, TaskDurationEstimate};
use crate::ids::UbuId;
use crate::json::JsonValue;
use crate::object_ref::ObjectRef;
use crate::serde_helpers::Duration;
use crate::time::UbuTimestamp;

verus! {

/// The version of the planning kernel contract these records follow.
pub const PLANNING_KERNEL_CONTRACT_VERSION: &'static str = "planning-kernel-contract/0.1";

/// One window of available time.
#[derive(Debug, Clone, PartialEq, Eq)]
pub struct CalendarWindow {
    pub start: UbuTimestamp,
    pub end: UbuTimestamp,
}

/// Available time in a timezone.
#[derive(Debug, Clone, PartialEq, Eq)]
pub struct Calendar {
    pub id: UbuId,
    pub timezone: String,
    pub windows: Vec<CalendarWindow>,
}

#[derive(Debug, Clone, Copy, PartialEq, Eq, Hash, Structural)]
pub enum Severity {
    Info,
    Warning,
    Error,
}

/// One piece of an explanation, about a subject where it has one.
#[derive(Debug, Clone, PartialEq, Eq)]
pub struct ExplanationFragment {
    pub subject: Option<ObjectRef>,
    pub text: String,
    pub severity: Severity,
}

#[derive(Debug, Clone, Copy, PartialEq, Eq, Hash, Structural)]
pub enum PlanStatus {
    Candidate,
    Admitted,
    Rejected,
    Superseded,
}

/// One step of a plan, as the planning kernel wrote it.
#[derive(Debug, Clone, PartialEq)]
pub struct PlanStep(pub JsonValue);

/// A plan: its steps and where it stands.
#[derive(Debug, Clone, PartialEq)]
pub struct Plan {
    pub id: UbuId,
    pub status: PlanStatus,
    pub steps: Vec<PlanStep>,
    pub created_at: UbuTimestamp,
}

/// A task to plan, with its estimate where one is known.
#[derive(Debug, Clone, PartialEq, Eq)]
pub struct TaskSpec {
    pub title: String,
    pub estimate: Option<Duration>,
}

impl TaskSpec {
    /// What the planning kernel is told of a Task: its title, and as estimate
    /// the one scalar of its duration model (the fixed value, or the p95 bound).
    pub fn from_task(task: &Task) -> (r: TaskSpec)
        ensures
            r.title@ == task.title@,
            match task.duration_estimate {
                Some(e) => r.estimate matches Some(d) && d.seconds == match e {
                    TaskDurationEstimate::Fixed { seconds } => seconds,
                    TaskDurationEstimate::ShiftedLognormalP95 { p95_seconds, .. } => p95_seconds,
                } && d.iso8601 is None,
                None => r.estimate is None,
            },
    {
        let estimate = match &task.duration_estimate {
            Some(e) => Some(Duration { seconds: e.scalar_seconds(), iso8601: None }),
            None => None,
        };
        TaskSpec { title: task.title.clone(), estimate }
    }
}

/// A request to the planning kernel.
#[derive(Debug, PartialEq)]
pub struct PlanningRequest {
    pub request_id: String,
    pub requested_at: UbuTimestamp,
    pub authority_source: AuthoritySource,
    pub task_specs: Vec<TaskSpec>,
    pub context: Option<JsonValue>,
}

/// The validation the planning kernel reports, as it wrote it.
#[derive(Debug, Clone, PartialEq)]
pub struct ValidationResult(pub JsonValue);

/// A diagnostic of a failed plan skeleton, as the planning kernel wrote it.
#[derive(Debug, Clone, PartialEq)]
pub struct SkeletonFailureDiagnostic(pub JsonValue);

/// The planning kernel's answer to a request.
#[derive(Debug, PartialEq)]
pub struct PlanningResponse {
    pub schema_version: String,
    pub request_id: String,
    pub responded_at: UbuTimestamp,
    pub plan: Option<Plan>,
    pub validation: ValidationResult,
}

/// A request to repair a plan.
#[derive(Debug, PartialEq)]
pub struct RepairRequest {
    pub schema_version: String,
    pub request_id: String,
    pub plan: Plan,
    pub diagnostics: Vec<SkeletonFailureDiagnostic>,
}

/// The planning kernel's answer to a repair request.
#[derive(Debug, PartialEq)]
pub struct RepairResponse {
    pub schema_version: String,
    pub request_id: String,
    pub repaired_plan: Option<Plan>,
    pub validation: ValidationResult,
}

} // verus!
