//! Operations that a projection would perform on an outside system.
use vstd::prelude::*;

use crate::json::JsonValue;
use crate::source_ref::SourceRef;

verus! {

#[derive(Debug, Clone, Copy, PartialEq, Eq, Hash, Structural)]
pub enum ProjectionOperationKind {
    Create,
    Update,
    Delete,
    Comment,
    Label,
}

#[derive(Debug, PartialEq)]
pub struct ProjectionOperation {
    pub operation_id: String,
    pub kind: ProjectionOperationKind,
    pub target: SourceRef,
    pub summary: String,
    pub payload: Option<JsonValue>,
}

} // verus!
