//! Error vocabulary shared by every validation rule of the library.
use vstd::prelude::*;

use crate::advisory_candidate::CandidateLifecycleState;
use crate::text::join;

verus! {

/// A duration-estimate rule that an estimate breaks.
#[non_exhaustive]
#[derive(Debug, Clone, Copy, PartialEq, Eq, Structural)]
pub enum DurationEstimateViolation {
    ZeroSeconds,
    NotStrictlyIncreasing,
}

/// A correlation-group rule that a list of groups breaks.
#[non_exhaustive]
#[derive(Debug, Clone, Copy, PartialEq, Eq, Structural)]
pub enum CorrelationGroupViolation {
    StrengthOutOfRange,
    DuplicateName,
}

/// Every way in which a value of the library can be refused.
#[allow(inconsistent_fields)]
#[derive(Debug, Clone, PartialEq, Eq)]
pub enum UbuError {
    InvalidRecurrenceTimezone,
    InvalidRecurrenceDate,
    ZeroScheduleVersion,
    EmptyRecurrenceWeekdays,
    DuplicateRecurrenceWeekday,
    EmptyRecurrenceDays,
    InvalidRecurrenceDay,
    DuplicateRecurrenceDay,
    InvalidRecurrenceEnablementWindow,
    DuplicateRecurrenceExdate,
    DuplicateRoutineOverrideDate,
    InvalidRoutineOverrideWindow,
    EmptyRoutineTitle,
    InvalidRoutineLocalTime,
    InvalidRoutineNominalStart,
    ZeroTemplateVersion,
    NegativeRoutineReminder,
    InvalidRoutineAfterObjective,
    NegativeRoutineAfterOffset,
    InvertedRoutineAfterBounds,
    PlannedRoutineMissingRange,
    StaticRoutineWithRange,
    InvalidRoutineLocalRange,
    InvalidOccurrenceObjective,
    InvalidOccurrenceDate,
    EmptyOccurrenceKey,
    RecurrenceRequiresEvergreen,
    RoutineTemplateRequiresRecurrence,
    RoutineObjectiveWithPriority,
    RoutineAfterSelfReference,
    InvalidPreferenceSubjects,
    PreferenceSelfRelation,
    InvalidLocalAdvisory { field: &'static str },
    UngrantedAdvisoryCapability { kind: String },
    AdvisoryResultTooLarge,
    CandidateNotRejected { state: CandidateLifecycleState },
    InvalidSuppressionRecord { field: &'static str },
    InvalidCandidateRecord { field: &'static str },
    InvalidCandidateTransition { current: CandidateLifecycleState, next: CandidateLifecycleState },
    InvalidResurfaceTrigger { current: CandidateLifecycleState, next: CandidateLifecycleState },
    InvalidAdvisoryCandidateId { value: String },
    EmptyZoneId,
    EmptyDeviceLabel,
    EmptyDeviceCapability,
    DuplicateDeviceId { device_id: String },
    EmptyDeviceId,
    EmptyIdempotencyKey,
    InvalidVersionRef { value: String },
    MissingObservedPolicyVersions,
    IdempotencyKeyConflict { origin_device_id: String, idempotency_key: String },
    InvalidId { value: String },
    UnknownIdPrefix { prefix: String },
    WrongIdObjectType { id: String, expected: &'static str, actual: &'static str },
    InvalidTimestamp { value: String },
    InvalidCompartmentLabel { value: String },
    MissingMootReasonCode,
    UnexpectedMootReasonCode { status: &'static str },
    InvalidTaskAssignee,
    DuplicateTaskBlockedBy,
    InvalidTaskBlockedBy,
    TaskSelfBlocked,
    InvalidTaskDurationEstimate { violation: DurationEstimateViolation },
    EmptyTaskTag,
    DuplicateTaskTag,
    InvalidTaskStaticWindow,
    InvalidTaskAllowedTimeRange,
    TaskStaticWithAllowedTimeRange,
    InvalidTaskCategoryTag,
    InvalidTaskCorrelationGroup { violation: CorrelationGroupViolation },
}


/// The first error among checks `f(0), .., f(n - 1)`, in that order.
pub open spec fn first_error(n: int, f: spec_fn(int) -> Option<UbuError>) -> Option<UbuError>
    decreases n,
{
    if n <= 0 {
        None
    } else {
        match first_error(n - 1, f) {
            Some(e) => Some(e),
            None => f(n - 1),
        }
    }
}

/// `Ok` when there is no error, else the error.
pub open spec fn outcome_of(e: Option<UbuError>) -> Result<(), UbuError> {
    match e {
        Some(x) => Err(x),
        None => Ok(()),
    }
}

/// The first error of two consecutive rules.
pub open spec fn then_check(first: Result<(), UbuError>, second: Result<(), UbuError>) -> Result<(), UbuError> {
    match first {
        Err(e) => Err(e),
        Ok(()) => second,
    }
}


/// The first failing check of a list, in list order.
pub open spec fn first_failure(checks: Seq<Result<(), UbuError>>) -> Result<(), UbuError>
    decreases checks.len(),
{
    if checks.len() == 0 {
        Ok(())
    } else {
        match checks[0] {
            Err(e) => Err(e),
            Ok(()) => first_failure(checks.drop_first()),
        }
    }
}

/// How `{:?}` spells a lifecycle state.
pub open spec fn lifecycle_debug(s: CandidateLifecycleState) -> Seq<char> {
    match s {
        CandidateLifecycleState::Proposed => "Proposed"@,
        CandidateLifecycleState::Deferred => "Deferred"@,
        CandidateLifecycleState::Resurfaced => "Resurfaced"@,
        CandidateLifecycleState::Admitted => "Admitted"@,
        CandidateLifecycleState::Rejected => "Rejected"@,
        CandidateLifecycleState::Superseded => "Superseded"@,
        CandidateLifecycleState::Archived => "Archived"@,
    }
}

fn lifecycle_debug_str(s: CandidateLifecycleState) -> (r: &'static str)
    ensures
        r@ == lifecycle_debug(s),
{
    match s {
        CandidateLifecycleState::Proposed => "Proposed",
        CandidateLifecycleState::Deferred => "Deferred",
        CandidateLifecycleState::Resurfaced => "Resurfaced",
        CandidateLifecycleState::Admitted => "Admitted",
        CandidateLifecycleState::Rejected => "Rejected",
        CandidateLifecycleState::Superseded => "Superseded",
        CandidateLifecycleState::Archived => "Archived",
    }
}

impl DurationEstimateViolation {
    /// The rule, as the error message states it.
    pub open spec fn text(self) -> Seq<char> {
        match self {
            DurationEstimateViolation::ZeroSeconds => "duration_estimate.fixed.seconds must be greater than zero"@,
            DurationEstimateViolation::NotStrictlyIncreasing => "duration_estimate must satisfy min_seconds < mode_seconds < p95_seconds"@,
        }
    }

    /// The rule, as the error message states it.
    pub fn message(&self) -> (r: &'static str)
        ensures
            r@ == self.text(),
    {
        match self {
            DurationEstimateViolation::ZeroSeconds => "duration_estimate.fixed.seconds must be greater than zero",
            DurationEstimateViolation::NotStrictlyIncreasing => "duration_estimate must satisfy min_seconds < mode_seconds < p95_seconds",
        }
    }
}

impl CorrelationGroupViolation {
    /// The rule, as the error message states it.
    pub open spec fn text(self) -> Seq<char> {
        match self {
            CorrelationGroupViolation::StrengthOutOfRange => "correlation group strength must be between zero and one"@,
            CorrelationGroupViolation::DuplicateName => "correlation group names must be unique"@,
        }
    }

    /// The rule, as the error message states it.
    pub fn message(&self) -> (r: &'static str)
        ensures
            r@ == self.text(),
    {
        match self {
            CorrelationGroupViolation::StrengthOutOfRange => "correlation group strength must be between zero and one",
            CorrelationGroupViolation::DuplicateName => "correlation group names must be unique",
        }
    }
}

/// The human-readable message of an error.
pub open spec fn error_text(e: UbuError) -> Seq<char> {
    match e {
        UbuError::InvalidRecurrenceTimezone => "recurrence timezone must be UTC or Area/Location"@,
        UbuError::InvalidRecurrenceDate => "recurrence date must be a valid YYYY-MM-DD date"@,
        UbuError::ZeroScheduleVersion => "schedule_version must be positive"@,
        UbuError::EmptyRecurrenceWeekdays => "weekly recurrence requires nonempty weekdays"@,
        UbuError::DuplicateRecurrenceWeekday => "recurrence weekdays must be unique"@,
        UbuError::EmptyRecurrenceDays => "monthly_day recurrence requires nonempty days"@,
        UbuError::InvalidRecurrenceDay => "recurrence days must be 1 through 31"@,
        UbuError::DuplicateRecurrenceDay => "recurrence days must be unique"@,
        UbuError::InvalidRecurrenceEnablementWindow => "enabled_from must not be after enabled_until"@,
        UbuError::DuplicateRecurrenceExdate => "exdates must be unique"@,
        UbuError::DuplicateRoutineOverrideDate => "routine overrides must have unique local_date values"@,
        UbuError::InvalidRoutineOverrideWindow => "routine override end must be after start"@,
        UbuError::EmptyRoutineTitle => "routine template title must not be empty"@,
        UbuError::InvalidRoutineLocalTime => "local time must be valid HH:MM:SS"@,
        UbuError::InvalidRoutineNominalStart => "nominal_start must be valid HH:MM:SS"@,
        UbuError::ZeroTemplateVersion => "template_version must be positive"@,
        UbuError::NegativeRoutineReminder => "reminder_minutes must be nonnegative"@,
        UbuError::InvalidRoutineAfterObjective => "after objective_id must be an Objective id"@,
        UbuError::NegativeRoutineAfterOffset => "after minimum_seconds must be nonnegative"@,
        UbuError::InvertedRoutineAfterBounds => "after maximum_seconds must be at least minimum_seconds"@,
        UbuError::PlannedRoutineMissingRange => "planned routine requires allowed_local_range"@,
        UbuError::StaticRoutineWithRange => "static routine forbids allowed_local_range"@,
        UbuError::InvalidRoutineLocalRange => "allowed_local_range earliest must precede latest on the same day"@,
        UbuError::InvalidOccurrenceObjective => "routine_objective_id must be an Objective id"@,
        UbuError::InvalidOccurrenceDate => "occurrence local_date must be valid YYYY-MM-DD"@,
        UbuError::EmptyOccurrenceKey => "occurrence key must not be empty"@,
        UbuError::RecurrenceRequiresEvergreen => "recurrence requires evergreen mode"@,
        UbuError::RoutineTemplateRequiresRecurrence => "routine_instance_template requires recurrence"@,
        UbuError::RoutineObjectiveWithPriority => "routine Objective must not carry priority"@,
        UbuError::RoutineAfterSelfReference => "routine after must not name its own Objective"@,
        UbuError::InvalidPreferenceSubjects => "Preference subjects must be exactly one complete pair of Task IDs or Objective IDs"@,
        UbuError::PreferenceSelfRelation => "Preference cannot relate a subject to itself"@,
        UbuError::InvalidLocalAdvisory { field } => "invalid local advisory field `"@ + field@ + "`"@,
        UbuError::UngrantedAdvisoryCapability { kind } => "advisory capability is not granted for candidate kind `"@ + kind@ + "`"@,
        UbuError::AdvisoryResultTooLarge => "local advisory result exceeds result_size_limit_bytes"@,
        UbuError::CandidateNotRejected { state } => "suppression requires a rejected candidate, got "@ + lifecycle_debug(state),
        UbuError::InvalidSuppressionRecord { field } => "invalid suppression record field `"@ + field@ + "`"@,
        UbuError::InvalidCandidateRecord { field } => "invalid advisory candidate field `"@ + field@ + "`"@,
        UbuError::InvalidCandidateTransition { current, next } => "invalid candidate transition from "@ + lifecycle_debug(current) + " to "@ + lifecycle_debug(next),
        UbuError::InvalidResurfaceTrigger { current, next } => "resurface trigger must be supplied exactly when entering Resurfaced: "@ + lifecycle_debug(current) + " -> "@ + lifecycle_debug(next),
        UbuError::InvalidAdvisoryCandidateId { value } => "invalid advisory candidate id `"@ + value@ + "`"@,
        UbuError::EmptyZoneId => "zone id must not be empty"@,
        UbuError::EmptyDeviceLabel => "device label must not be empty"@,
        UbuError::EmptyDeviceCapability => "device capability must not be empty"@,
        UbuError::DuplicateDeviceId { device_id } => "duplicate device id `"@ + device_id@ + "` in registration registry"@,
        UbuError::EmptyDeviceId => "origin device id must not be empty"@,
        UbuError::EmptyIdempotencyKey => "idempotency key must not be empty"@,
        UbuError::InvalidVersionRef { value } => "invalid version reference `"@ + value@ + "`"@,
        UbuError::MissingObservedPolicyVersions => "policy-dependent mutation requires non-empty observed_policy_versions"@,
        UbuError::IdempotencyKeyConflict { origin_device_id, idempotency_key } => "idempotency_key_conflict for device `"@ + origin_device_id@ + "` and key `"@ + idempotency_key@ + "`"@,
        UbuError::InvalidId { value } => "invalid UbU id `"@ + value@ + "`"@,
        UbuError::UnknownIdPrefix { prefix } => "unknown UbU id prefix `"@ + prefix@ + "`"@,
        UbuError::WrongIdObjectType { id, expected, actual } => "id `"@ + id@ + "` has object type `"@ + actual@ + "`, expected `"@ + expected@ + "`"@,
        UbuError::InvalidTimestamp { value } => "invalid RFC 3339 timestamp with required timezone offset `"@ + value@ + "`"@,
        UbuError::InvalidCompartmentLabel { value } => "invalid compartment label `"@ + value@ + "`"@,
        UbuError::MissingMootReasonCode => "task status `moot` requires moot_reason_code"@,
        UbuError::UnexpectedMootReasonCode { status } => "task status `"@ + status@ + "` forbids moot_reason_code"@,
        UbuError::InvalidTaskAssignee => "Task assignee must be an Identity id"@,
        UbuError::DuplicateTaskBlockedBy => "Task blocked_by contains a duplicate Task id"@,
        UbuError::InvalidTaskBlockedBy => "Task blocked_by contains a non-Task id"@,
        UbuError::TaskSelfBlocked => "Task cannot be blocked by itself"@,
        UbuError::InvalidTaskDurationEstimate { violation } => "core/task schema: "@ + violation.text(),
        UbuError::EmptyTaskTag => "Task tags must not contain empty strings"@,
        UbuError::DuplicateTaskTag => "Task tags must be unique"@,
        UbuError::InvalidTaskStaticWindow => "Task static_window.end must be strictly after start"@,
        UbuError::InvalidTaskAllowedTimeRange => "Task allowed_time_range.earliest_start must be strictly before latest_finish"@,
        UbuError::TaskStaticWithAllowedTimeRange => "Task cannot have both static_window and allowed_time_range"@,
        UbuError::InvalidTaskCategoryTag => "Task category_tag must be non-empty and an exact member of tags"@,
        UbuError::InvalidTaskCorrelationGroup { violation } => "core/task schema: "@ + violation.text(),
    }
}

impl UbuError {
    /// The human-readable message of this error.
    pub fn message(&self) -> (r: String)
        ensures
            r@ == error_text(*self),
    {
        match self {
            UbuError::InvalidRecurrenceTimezone => {
                let mut r = "recurrence timezone must be UTC or Area/Location".to_owned();
                r
            },
            UbuError::InvalidRecurrenceDate => {
                let mut r = "recurrence date must be a valid YYYY-MM-DD date".to_owned();
                r
            },
            UbuError::ZeroScheduleVersion => {
                let mut r = "schedule_version must be positive".to_owned();
                r
            },
            UbuError::EmptyRecurrenceWeekdays => {
                let mut r = "weekly recurrence requires nonempty weekdays".to_owned();
                r
            },
            UbuError::DuplicateRecurrenceWeekday => {
                let mut r = "recurrence weekdays must be unique".to_owned();
                r
            },
            UbuError::EmptyRecurrenceDays => {
                let mut r = "monthly_day recurrence requires nonempty days".to_owned();
                r
            },
            UbuError::InvalidRecurrenceDay => {
                let mut r = "recurrence days must be 1 through 31".to_owned();
                r
            },
            UbuError::DuplicateRecurrenceDay => {
                let mut r = "recurrence days must be unique".to_owned();
                r
            },
            UbuError::InvalidRecurrenceEnablementWindow => {
                let mut r = "enabled_from must not be after enabled_until".to_owned();
                r
            },
            UbuError::DuplicateRecurrenceExdate => {
                let mut r = "exdates must be unique".to_owned();
                r
            },
            UbuError::DuplicateRoutineOverrideDate => {
                let mut r = "routine overrides must have unique local_date values".to_owned();
                r
            },
            UbuError::InvalidRoutineOverrideWindow => {
                let mut r = "routine override end must be after start".to_owned();
                r
            },
            UbuError::EmptyRoutineTitle => {
                let mut r = "routine template title must not be empty".to_owned();
                r
            },
            UbuError::InvalidRoutineLocalTime => {
                let mut r = "local time must be valid HH:MM:SS".to_owned();
                r
            },
            UbuError::InvalidRoutineNominalStart => {
                let mut r = "nominal_start must be valid HH:MM:SS".to_owned();
                r
            },
            UbuError::ZeroTemplateVersion => {
                let mut r = "template_version must be positive".to_owned();
                r
            },
            UbuError::NegativeRoutineReminder => {
                let mut r = "reminder_minutes must be nonnegative".to_owned();
                r
            },
            UbuError::InvalidRoutineAfterObjective => {
                let mut r = "after objective_id must be an Objective id".to_owned();
                r
            },
            UbuError::NegativeRoutineAfterOffset => {
                let mut r = "after minimum_seconds must be nonnegative".to_owned();
                r
            },
            UbuError::InvertedRoutineAfterBounds => {
                let mut r = "after maximum_seconds must be at least minimum_seconds".to_owned();
                r
            },
            UbuError::PlannedRoutineMissingRange => {
                let mut r = "planned routine requires allowed_local_range".to_owned();
                r
            },
            UbuError::StaticRoutineWithRange => {
                let mut r = "static routine forbids allowed_local_range".to_owned();
                r
            },
            UbuError::InvalidRoutineLocalRange => {
                let mut r = "allowed_local_range earliest must precede latest on the same day".to_owned();
                r
            },
            UbuError::InvalidOccurrenceObjective => {
                let mut r = "routine_objective_id must be an Objective id".to_owned();
                r
            },
            UbuError::InvalidOccurrenceDate => {
                let mut r = "occurrence local_date must be valid YYYY-MM-DD".to_owned();
                r
            },
            UbuError::EmptyOccurrenceKey => {
                let mut r = "occurrence key must not be empty".to_owned();
                r
            },
            UbuError::RecurrenceRequiresEvergreen => {
                let mut r = "recurrence requires evergreen mode".to_owned();
                r
            },
            UbuError::RoutineTemplateRequiresRecurrence => {
                let mut r = "routine_instance_template requires recurrence".to_owned();
                r
            },
            UbuError::RoutineObjectiveWithPriority => {
                let mut r = "routine Objective must not carry priority".to_owned();
                r
            },
            UbuError::RoutineAfterSelfReference => {
                let mut r = "routine after must not name its own Objective".to_owned();
                r
            },
            UbuError::InvalidPreferenceSubjects => {
                let mut r = "Preference subjects must be exactly one complete pair of Task IDs or Objective IDs".to_owned();
                r
            },
            UbuError::PreferenceSelfRelation => {
                let mut r = "Preference cannot relate a subject to itself".to_owned();
                r
            },
            UbuError::InvalidLocalAdvisory { field } => {
                let mut r = "invalid local advisory field `".to_owned();
                r = join(r, *field);
                r = join(r, "`");
                r
            },
            UbuError::UngrantedAdvisoryCapability { kind } => {
                let mut r = "advisory capability is not granted for candidate kind `".to_owned();
                r = join(r, kind.as_str());
                r = join(r, "`");
                r
            },
            UbuError::AdvisoryResultTooLarge => {
                let mut r = "local advisory result exceeds result_size_limit_bytes".to_owned();
                r
            },
            UbuError::CandidateNotRejected { state } => {
                let mut r = "suppression requires a rejected candidate, got ".to_owned();
                r = join(r, lifecycle_debug_str(*state));
                r
            },
            UbuError::InvalidSuppressionRecord { field } => {
                let mut r = "invalid suppression record field `".to_owned();
                r = join(r, *field);
                r = join(r, "`");
                r
            },
            UbuError::InvalidCandidateRecord { field } => {
                let mut r = "invalid advisory candidate field `".to_owned();
                r = join(r, *field);
                r = join(r, "`");
                r
            },
            UbuError::InvalidCandidateTransition { current, next } => {
                let mut r = "invalid candidate transition from ".to_owned();
                r = join(r, lifecycle_debug_str(*current));
                r = join(r, " to ");
                r = join(r, lifecycle_debug_str(*next));
                r
            },
            UbuError::InvalidResurfaceTrigger { current, next } => {
                let mut r = "resurface trigger must be supplied exactly when entering Resurfaced: ".to_owned();
                r = join(r, lifecycle_debug_str(*current));
                r = join(r, " -> ");
                r = join(r, lifecycle_debug_str(*next));
                r
            },
            UbuError::InvalidAdvisoryCandidateId { value } => {
                let mut r = "invalid advisory candidate id `".to_owned();
                r = join(r, value.as_str());
                r = join(r, "`");
                r
            },
            UbuError::EmptyZoneId => {
                let mut r = "zone id must not be empty".to_owned();
                r
            },
            UbuError::EmptyDeviceLabel => {
                let mut r = "device label must not be empty".to_owned();
                r
            },
            UbuError::EmptyDeviceCapability => {
                let mut r = "device capability must not be empty".to_owned();
                r
            },
            UbuError::DuplicateDeviceId { device_id } => {
                let mut r = "duplicate device id `".to_owned();
                r = join(r, device_id.as_str());
                r = join(r, "` in registration registry");
                r
            },
            UbuError::EmptyDeviceId => {
                let mut r = "origin device id must not be empty".to_owned();
                r
            },
            UbuError::EmptyIdempotencyKey => {
                let mut r = "idempotency key must not be empty".to_owned();
                r
            },
            UbuError::InvalidVersionRef { value } => {
                let mut r = "invalid version reference `".to_owned();
                r = join(r, value.as_str());
                r = join(r, "`");
                r
            },
            UbuError::MissingObservedPolicyVersions => {
                let mut r = "policy-dependent mutation requires non-empty observed_policy_versions".to_owned();
                r
            },
            UbuError::IdempotencyKeyConflict { origin_device_id, idempotency_key } => {
                let mut r = "idempotency_key_conflict for device `".to_owned();
                r = join(r, origin_device_id.as_str());
                r = join(r, "` and key `");
                r = join(r, idempotency_key.as_str());
                r = join(r, "`");
                r
            },
            UbuError::InvalidId { value } => {
                let mut r = "invalid UbU id `".to_owned();
                r = join(r, value.as_str());
                r = join(r, "`");
                r
            },
            UbuError::UnknownIdPrefix { prefix } => {
                let mut r = "unknown UbU id prefix `".to_owned();
                r = join(r, prefix.as_str());
                r = join(r, "`");
                r
            },
            UbuError::WrongIdObjectType { id, expected, actual } => {
                let mut r = "id `".to_owned();
                r = join(r, id.as_str());
                r = join(r, "` has object type `");
                r = join(r, *actual);
                r = join(r, "`, expected `");
                r = join(r, *expected);
                r = join(r, "`");
                r
            },
            UbuError::InvalidTimestamp { value } => {
                let mut r = "invalid RFC 3339 timestamp with required timezone offset `".to_owned();
                r = join(r, value.as_str());
                r = join(r, "`");
                r
            },
            UbuError::InvalidCompartmentLabel { value } => {
                let mut r = "invalid compartment label `".to_owned();
                r = join(r, value.as_str());
                r = join(r, "`");
                r
            },
            UbuError::MissingMootReasonCode => {
                let mut r = "task status `moot` requires moot_reason_code".to_owned();
                r
            },
            UbuError::UnexpectedMootReasonCode { status } => {
                let mut r = "task status `".to_owned();
                r = join(r, *status);
                r = join(r, "` forbids moot_reason_code");
                r
            },
            UbuError::InvalidTaskAssignee => {
                let mut r = "Task assignee must be an Identity id".to_owned();
                r
            },
            UbuError::DuplicateTaskBlockedBy => {
                let mut r = "Task blocked_by contains a duplicate Task id".to_owned();
                r
            },
            UbuError::InvalidTaskBlockedBy => {
                let mut r = "Task blocked_by contains a non-Task id".to_owned();
                r
            },
            UbuError::TaskSelfBlocked => {
                let mut r = "Task cannot be blocked by itself".to_owned();
                r
            },
            UbuError::InvalidTaskDurationEstimate { violation } => {
                let mut r = "core/task schema: ".to_owned();
                r = join(r, violation.message());
                r
            },
            UbuError::EmptyTaskTag => {
                let mut r = "Task tags must not contain empty strings".to_owned();
                r
            },
            UbuError::DuplicateTaskTag => {
                let mut r = "Task tags must be unique".to_owned();
                r
            },
            UbuError::InvalidTaskStaticWindow => {
                let mut r = "Task static_window.end must be strictly after start".to_owned();
                r
            },
            UbuError::InvalidTaskAllowedTimeRange => {
                let mut r = "Task allowed_time_range.earliest_start must be strictly before latest_finish".to_owned();
                r
            },
            UbuError::TaskStaticWithAllowedTimeRange => {
                let mut r = "Task cannot have both static_window and allowed_time_range".to_owned();
                r
            },
            UbuError::InvalidTaskCategoryTag => {
                let mut r = "Task category_tag must be non-empty and an exact member of tags".to_owned();
                r
            },
            UbuError::InvalidTaskCorrelationGroup { violation } => {
                let mut r = "core/task schema: ".to_owned();
                r = join(r, violation.message());
                r
            },
        }
    }
}

} // verus!
