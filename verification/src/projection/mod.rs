pub mod legitimizer;
pub mod operation;
pub mod records;

pub use legitimizer::{
    ExportGateDecision, ExportPermit, ExportProjectionContext, Legitimizer, LegitimizerDecision,
};
pub use operation::{ProjectionOperation, ProjectionOperationKind};

pub use records::{
    OperationResult, OperationResultStatus, ProjectionApproval, ProjectionPreview,
    ProjectionResult, ProjectionResultStatus,
};
