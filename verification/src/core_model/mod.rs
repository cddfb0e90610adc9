pub mod identity;
pub mod log_entry;
pub mod objective;
pub mod preference;
pub mod records;
pub mod routine;
pub mod scalar_set;
pub mod task;
pub mod universe_state;

pub use identity::IdentityKind;
pub use log_entry::{CompartmentBoundaryDecidedPayload, LogEntry, PolicyMember};
pub use objective::{Objective, ObjectiveStatus};
pub use preference::{Preference, PreferenceAcquiredMethod, PreferenceOrder, PreferenceSubjects};
pub use routine::{
    routine_occurrence_key, validate_local_date, validate_local_time,
    validate_objective_routine_fields, validate_timezone, LocalTimeRange, ObjectiveMode,
    RecurrenceRule, RecurrenceSchedule, RoutineAfter, RoutineInstanceTemplate, RoutinePlacement,
    TaskOccurrence, Weekday,
};
pub use task::{
    validate_category_tag, validate_scheduling_forms, AllowedTimeRange, MootReasonCode,
    StaticWindow, Task, TaskAssignee, TaskCorrelationGroup, TaskDurationEstimate, TaskEffect,
    TaskStatus,
};
pub use records::{
    AffectDimension, AffectDimensionObservation, AffectDimensions, AffectSourceKind,
    AutomationWorker, Compartment, Container, ExternalEvent, ExternalReference, Relationship,
    Setting, Snapshot, SnapshotAffect, WorkItem,
};
pub use universe_state::{
    apply_universe_mutations, evaluate_universe_precondition, JsonScalar, JsonScalarError,
    MarkerList, ScalarSet, UniverseMutation, UniverseMutationError, UniversePrecondition,
    UniversePreconditionError, UniversePreconditionLeaf, UniverseState,
};
