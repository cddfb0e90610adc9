//! Projection previews, their approval and the results of applying them.
use vstd::prelude::*;

use crate::authority::AuthoritySource;
use crate::ids::UbuId;
use crate::policy_summary::PolicySummary;
use crate::projection::operation::ProjectionOperation;
use crate::time::UbuTimestamp;

verus! {

/// An approval, or refusal, of a projection preview.
#[derive(Debug, Clone, PartialEq, Eq)]
pub struct ProjectionApproval {
    pub preview_id: UbuId,
    pub approved: bool,
    pub approved_at: UbuTimestamp,
    pub authority_source: AuthoritySource,
}

/// The operations a projection would perform, shown before any is performed.
#[derive(Debug, PartialEq)]
pub struct ProjectionPreview {
    pub id: UbuId,
    pub created_at: UbuTimestamp,
    pub operations: Vec<ProjectionOperation>,
    pub policy_summary: Option<PolicySummary>,
}

#[derive(Debug, Clone, Copy, PartialEq, Eq, Hash, Structural)]
pub enum ProjectionResultStatus {
    Applied,
    Partial,
    Failed,
}

#[derive(Debug, Clone, Copy, PartialEq, Eq, Hash, Structural)]
pub enum OperationResultStatus {
    Applied,
    Skipped,
    Failed,
}

/// What became of one operation.
#[derive(Debug, Clone, PartialEq, Eq)]
pub struct OperationResult {
    pub operation_id: String,
    pub status: OperationResultStatus,
    pub message: Option<String>,
}

/// What became of a projection.
#[derive(Debug, Clone, PartialEq, Eq)]
pub struct ProjectionResult {
    pub preview_id: UbuId,
    pub applied_at: UbuTimestamp,
    pub status: ProjectionResultStatus,
    pub operation_results: Vec<OperationResult>,
}

} // verus!
