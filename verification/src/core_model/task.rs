//! Tasks and the field rules shared by Task validation and store admission.
use vstd::prelude::*;

use crate::core_model::identity::IdentityKind;
use crate::core_model::routine::{occurrence_outcome, TaskOccurrence};
use crate::core_model::universe_state::{UniverseMutation, UniversePrecondition};
use crate::errors::{
    first_error, first_failure, outcome_of, then_check, CorrelationGroupViolation, DurationEstimateViolation,
    UbuError,
};
use crate::id_registry::ObjectType;
use crate::ids::{id_object_type, UbuId};
use crate::provenance::Provenance;
use crate::text::str_eq;
use crate::time::UbuTimestamp;

verus! {

#[derive(Debug, Clone, Copy, PartialEq, Eq, Hash, Structural)]
pub enum TaskStatus {
    Active,
    Completed,
    Failed,
    Moot,
}

/// The wire spelling of a task status.
pub open spec fn task_status_wire(s: TaskStatus) -> Seq<char> {
    match s {
        TaskStatus::Active => "active"@,
        TaskStatus::Completed => "completed"@,
        TaskStatus::Failed => "failed"@,
        TaskStatus::Moot => "moot"@,
    }
}

impl TaskStatus {
    pub fn as_str(self) -> (r: &'static str)
        ensures
            r@ == task_status_wire(self),
    {
        match self {
            TaskStatus::Active => "active",
            TaskStatus::Completed => "completed",
            TaskStatus::Failed => "failed",
            TaskStatus::Moot => "moot",
        }
    }
}

#[derive(Debug, Clone, Copy, PartialEq, Eq, Hash, Structural)]
pub enum MootReasonCode {
    ExternallySatisfied,
    Superseded,
    Delegated,
    NoLongerRelevant,
    InvalidatedByUniverseChange,
    ReplacedByNewPlanStructure,
    UserDeclaredMoot,
    AutomationObsolete,
    Duplicate,
}

/// A Static Task's authoritative placement; without a window the Task is Dynamic.
#[derive(Debug, PartialEq, Eq)]
pub struct StaticWindow {
    pub start: UbuTimestamp,
    pub end: UbuTimestamp,
}

pub open spec fn window_outcome(w: StaticWindow) -> Result<(), UbuError> {
    if w.end@.0 <= w.start@.0 {
        Err(UbuError::InvalidTaskStaticWindow)
    } else {
        Ok(())
    }
}

impl StaticWindow {
    /// The end must come strictly after the start.
    pub fn validate(&self) -> (r: Result<(), UbuError>)
        ensures
            r == window_outcome(*self),
    {
        if !self.start.is_before(&self.end) {
            return Err(UbuError::InvalidTaskStaticWindow);
        }
        Ok(())
    }
}

/// Hard absolute occupancy range for a Dynamic Task.
#[derive(Debug, PartialEq, Eq)]
pub struct AllowedTimeRange {
    pub earliest_start: UbuTimestamp,
    pub latest_finish: UbuTimestamp,
}

pub open spec fn range_outcome(a: AllowedTimeRange) -> Result<(), UbuError> {
    if a.earliest_start@.0 >= a.latest_finish@.0 {
        Err(UbuError::InvalidTaskAllowedTimeRange)
    } else {
        Ok(())
    }
}

impl AllowedTimeRange {
    /// The earliest start must come strictly before the latest finish.
    pub fn validate(&self) -> (r: Result<(), UbuError>)
        ensures
            r == range_outcome(*self),
    {
        if !self.earliest_start.is_before(&self.latest_finish) {
            return Err(UbuError::InvalidTaskAllowedTimeRange);
        }
        Ok(())
    }
}

pub open spec fn scheduling_forms_outcome(has_static_window: bool, has_allowed_time_range: bool) -> Result<(), UbuError> {
    if has_static_window && has_allowed_time_range {
        Err(UbuError::TaskStaticWithAllowedTimeRange)
    } else {
        Ok(())
    }
}

/// A Task may not be both Static and range-bounded.
pub fn validate_scheduling_forms(has_static_window: bool, has_allowed_time_range: bool) -> (r: Result<(), UbuError>)
    ensures
        r == scheduling_forms_outcome(has_static_window, has_allowed_time_range),
{
    if has_static_window && has_allowed_time_range {
        return Err(UbuError::TaskStaticWithAllowedTimeRange);
    }
    Ok(())
}

pub open spec fn category_tag_outcome(category_tag: Seq<char>, tags: Seq<String>) -> Result<(), UbuError> {
    if category_tag.len() == 0 || !(exists|i: int| 0 <= i < tags.len() && #[trigger] tags[i]@ == category_tag) {
        Err(UbuError::InvalidTaskCategoryTag)
    } else {
        Ok(())
    }
}

/// The category tag must be non-empty and an exact member of the tags.
#[verifier::loop_isolation(false)]
pub fn validate_category_tag(category_tag: &str, tags: &[String]) -> (r: Result<(), UbuError>)
    ensures
        r == category_tag_outcome(category_tag@, tags@),
{
    if category_tag.is_empty() {
        return Err(UbuError::InvalidTaskCategoryTag);
    }
    let mut i: usize = 0;
    while i < tags.len()
        invariant
            i <= tags@.len(),
            forall|j: int| 0 <= j < i ==> tags@[j]@ != category_tag@,
        decreases tags@.len() - i,
    {
        if str_eq(tags[i].as_str(), category_tag) {
            assert(tags@[i as int]@ == category_tag@);
            return Ok(());
        }
        i = i + 1;
    }
    Err(UbuError::InvalidTaskCategoryTag)
}

pub open spec fn tag_error(tags: Seq<String>, i: int) -> Option<UbuError> {
    if tags[i]@.len() == 0 {
        Some(UbuError::EmptyTaskTag)
    } else if exists|j: int| 0 <= j < i && #[trigger] tags[j]@ == tags[i]@ {
        Some(UbuError::DuplicateTaskTag)
    } else {
        None
    }
}

/// The first tag rule broken: an empty tag, or a tag repeating an earlier one.
pub open spec fn tags_outcome(tags: Seq<String>) -> Option<UbuError> {
    first_error(tags.len() as int, |i: int| tag_error(tags, i))
}

/// Tags must be non-empty and unique.
#[verifier::loop_isolation(false)]
pub fn check_tags(tags: &Vec<String>) -> (r: Result<(), UbuError>)
    ensures
        r == outcome_of(tags_outcome(tags@)),
{
    let ghost f = |i: int| tag_error(tags@, i);
    let mut i: usize = 0;
    while i < tags.len()
        invariant
            i <= tags@.len(),
            f == (|i: int| tag_error(tags@, i)),
            first_error(i as int, f) is None,
        decreases tags@.len() - i,
    {
        if tags[i].as_str().is_empty() {
            assert(first_error(i + 1, f) == Some(UbuError::EmptyTaskTag));
            proof { lemma_first_error_stays(i + 1, tags@.len() as int, f); }
            return Err(UbuError::EmptyTaskTag);
        }
        let mut j: usize = 0;
        while j < i
            invariant
                i < tags@.len(),
                j <= i,
                forall|k: int| 0 <= k < j ==> tags@[k]@ != tags@[i as int]@,
            decreases i - j,
        {
            if tags[j] == tags[i] {
                assert(tags@[j as int]@ == tags@[i as int]@);
                assert(first_error(i + 1, f) == Some(UbuError::DuplicateTaskTag));
                proof { lemma_first_error_stays(i + 1, tags@.len() as int, f); }
                return Err(UbuError::DuplicateTaskTag);
            }
            j = j + 1;
        }
        assert(f(i as int) is None);
        i = i + 1;
    }
    Ok(())
}

/// Once an error is found among the first checks, it stays the first error.
pub proof fn lemma_first_error_stays(m: int, n: int, f: spec_fn(int) -> Option<UbuError>)
    requires
        m <= n,
        first_error(m, f) is Some,
    ensures
        first_error(n, f) == first_error(m, f),
    decreases n - m,
{
    if m < n {
        lemma_first_error_stays(m, n - 1, f);
    }
}

/// Inline assignee shape of the canonical Identity schema.
#[derive(Debug, PartialEq, Eq)]
pub struct TaskAssignee {
    pub id: UbuId,
    pub subject_key: String,
    pub display_name: Option<String>,
    pub kind: IdentityKind,
}

/// How long a Task is expected to take.
#[derive(Debug, Clone, Copy, PartialEq, Eq, Structural)]
pub enum TaskDurationEstimate {
    Fixed { seconds: u64 },
    ShiftedLognormalP95 { min_seconds: u64, mode_seconds: u64, p95_seconds: u64 },
}

pub open spec fn estimate_outcome(e: TaskDurationEstimate) -> Result<(), UbuError> {
    match e {
        TaskDurationEstimate::Fixed { seconds } => if seconds == 0 {
            Err(UbuError::InvalidTaskDurationEstimate { violation: DurationEstimateViolation::ZeroSeconds })
        } else {
            Ok(())
        },
        TaskDurationEstimate::ShiftedLognormalP95 { min_seconds, mode_seconds, p95_seconds } => if !(min_seconds
            < mode_seconds && mode_seconds < p95_seconds) {
            Err(
                UbuError::InvalidTaskDurationEstimate {
                    violation: DurationEstimateViolation::NotStrictlyIncreasing,
                },
            )
        } else {
            Ok(())
        },
    }
}

impl TaskDurationEstimate {
    /// A fixed estimate must be positive; a shifted log-normal one must satisfy
    /// `min_seconds < mode_seconds < p95_seconds`.
    pub fn validate(&self) -> (r: Result<(), UbuError>)
        ensures
            r == estimate_outcome(*self),
    {
        match self {
            TaskDurationEstimate::Fixed { seconds } => {
                if *seconds == 0 {
                    return Err(
                        UbuError::InvalidTaskDurationEstimate {
                            violation: DurationEstimateViolation::ZeroSeconds,
                        },
                    );
                }
                Ok(())
            },
            TaskDurationEstimate::ShiftedLognormalP95 { min_seconds, mode_seconds, p95_seconds } => {
                if !(*min_seconds < *mode_seconds && *mode_seconds < *p95_seconds) {
                    return Err(
                        UbuError::InvalidTaskDurationEstimate {
                            violation: DurationEstimateViolation::NotStrictlyIncreasing,
                        },
                    );
                }
                Ok(())
            },
        }
    }

    /// The one scalar the planning kernel consumes: the fixed value, or the p95
    /// bound of a shifted log-normal estimate.
    pub fn scalar_seconds(&self) -> (r: u64)
        ensures
            r == match *self {
                TaskDurationEstimate::Fixed { seconds } => seconds,
                TaskDurationEstimate::ShiftedLognormalP95 { p95_seconds, .. } => p95_seconds,
            },
    {
        match self {
            TaskDurationEstimate::Fixed { seconds } => *seconds,
            TaskDurationEstimate::ShiftedLognormalP95 { p95_seconds, .. } => *p95_seconds,
        }
    }
}

/// Whether the IEEE-754 double with bit pattern `bits` lies in `[0.0, 1.0]`:
/// positive zero up to one, or negative zero; never a NaN.
pub open spec fn unit_interval_bits(bits: u64) -> bool {
    bits <= 0x3ff0_0000_0000_0000u64 || bits == 0x8000_0000_0000_0000u64
}

/// A named correlation group with a strength in `[0, 1]`, held as the bit
/// pattern of an IEEE-754 double.
#[derive(Debug, PartialEq, Eq)]
pub struct TaskCorrelationGroup {
    pub group: String,
    pub strength: u64,
}

pub open spec fn group_error(groups: Seq<TaskCorrelationGroup>, i: int) -> Option<UbuError> {
    if !unit_interval_bits(groups[i].strength) {
        Some(UbuError::InvalidTaskCorrelationGroup { violation: CorrelationGroupViolation::StrengthOutOfRange })
    } else if exists|j: int| 0 <= j < i && #[trigger] groups[j].group@ == groups[i].group@ {
        Some(UbuError::InvalidTaskCorrelationGroup { violation: CorrelationGroupViolation::DuplicateName })
    } else {
        None
    }
}

pub open spec fn groups_outcome(groups: Seq<TaskCorrelationGroup>) -> Option<UbuError> {
    first_error(groups.len() as int, |i: int| group_error(groups, i))
}

impl TaskCorrelationGroup {
    /// Strengths must lie in `[0, 1]` and names must be unique.
    #[verifier::loop_isolation(false)]
    pub fn validate_groups(groups: &[TaskCorrelationGroup]) -> (r: Result<(), UbuError>)
        ensures
            r == outcome_of(groups_outcome(groups@)),
    {
        let ghost f = |i: int| group_error(groups@, i);
        let mut i: usize = 0;
        while i < groups.len()
            invariant
                i <= groups@.len(),
                f == (|i: int| group_error(groups@, i)),
                first_error(i as int, f) is None,
            decreases groups@.len() - i,
        {
            let s = groups[i].strength;
            if !(s <= 0x3ff0_0000_0000_0000u64 || s == 0x8000_0000_0000_0000u64) {
                let e = UbuError::InvalidTaskCorrelationGroup {
                    violation: CorrelationGroupViolation::StrengthOutOfRange,
                };
                assert(first_error(i + 1, f) == Some(e));
                proof { lemma_first_error_stays(i + 1, groups@.len() as int, f); }
                return Err(e);
            }
            let mut j: usize = 0;
            while j < i
                invariant
                    i < groups@.len(),
                    j <= i,
                    forall|k: int| 0 <= k < j ==> groups@[k].group@ != groups@[i as int].group@,
                decreases i - j,
            {
                if groups[j].group == groups[i].group {
                    assert(groups@[j as int].group@ == groups@[i as int].group@);
                    let e = UbuError::InvalidTaskCorrelationGroup {
                        violation: CorrelationGroupViolation::DuplicateName,
                    };
                    assert(first_error(i + 1, f) == Some(e));
                    proof { lemma_first_error_stays(i + 1, groups@.len() as int, f); }
                    return Err(e);
                }
                j = j + 1;
            }
            assert(f(i as int) is None);
            i = i + 1;
        }
        Ok(())
    }
}

/// Optional predicted change to the universe state if the Task succeeds.
#[derive(Debug, PartialEq)]
pub struct TaskEffect {
    /// The bit pattern of an IEEE-754 double.
    pub success_probability: Option<u64>,
    pub mutations: Vec<UniverseMutation>,
}


/// A unit of work. Build one with `Task::new`, then assign optional fields.
#[non_exhaustive]
#[derive(Debug, PartialEq)]
pub struct Task {
    pub id: UbuId,
    pub title: String,
    pub description: Option<String>,
    pub status: TaskStatus,
    pub moot_reason_code: Option<MootReasonCode>,
    pub objective_id: Option<UbuId>,
    pub assignee: Option<TaskAssignee>,
    pub blocked_by: Vec<UbuId>,
    pub due_at: Option<UbuTimestamp>,
    pub duration_estimate: Option<TaskDurationEstimate>,
    pub correlation_groups: Vec<TaskCorrelationGroup>,
    pub preconditions: Option<UniversePrecondition>,
    pub effects: Option<TaskEffect>,
    pub provenance: Provenance,
    pub tags: Vec<String>,
    pub category_tag: Option<String>,
    pub occupies_capacity: bool,
    pub static_window: Option<StaticWindow>,
    pub allowed_time_range: Option<AllowedTimeRange>,
    pub occurrence: Option<TaskOccurrence>,
}

pub open spec fn blocked_error(ids: Seq<UbuId>, own: Seq<char>, i: int) -> Option<UbuError> {
    if id_object_type(ids[i]@) != ObjectType::Task {
        Some(UbuError::InvalidTaskBlockedBy)
    } else if ids[i]@ == own {
        Some(UbuError::TaskSelfBlocked)
    } else if exists|j: int| 0 <= j < i && #[trigger] ids[j]@ == ids[i]@ {
        Some(UbuError::DuplicateTaskBlockedBy)
    } else {
        None
    }
}

pub open spec fn optional_outcome<T>(o: Option<T>, check: spec_fn(T) -> Result<(), UbuError>) -> Result<(), UbuError> {
    match o {
        Some(x) => check(x),
        None => Ok(()),
    }
}

pub open spec fn assignee_outcome(a: Option<TaskAssignee>) -> Result<(), UbuError> {
    match a {
        Some(x) => if id_object_type(x.id@) != ObjectType::Identity {
            Err(UbuError::InvalidTaskAssignee)
        } else {
            Ok(())
        },
        None => Ok(()),
    }
}

/// Every field rule of a Task, in the order they are checked.
pub open spec fn task_fields_outcome(t: Task) -> Result<(), UbuError> {
    first_failure(
        seq![
            optional_outcome(t.occurrence, |o: TaskOccurrence| occurrence_outcome(o)),
            assignee_outcome(t.assignee),
            outcome_of(first_error(t.blocked_by@.len() as int, |i: int| blocked_error(t.blocked_by@, t.id@, i))),
            optional_outcome(t.duration_estimate, |e: TaskDurationEstimate| estimate_outcome(e)),
            outcome_of(tags_outcome(t.tags@)),
            outcome_of(groups_outcome(t.correlation_groups@)),
            optional_outcome(t.category_tag, |c: String| category_tag_outcome(c@, t.tags@)),
            scheduling_forms_outcome(t.static_window is Some, t.allowed_time_range is Some),
            optional_outcome(t.allowed_time_range, |a: AllowedTimeRange| range_outcome(a)),
            optional_outcome(t.static_window, |w: StaticWindow| window_outcome(w)),
        ],
    )
}

/// The lifecycle rule: a moot Task carries a reason code, no other Task does.
pub open spec fn lifecycle_ok(status: TaskStatus, code: Option<MootReasonCode>) -> bool {
    (status == TaskStatus::Moot) == (code is Some)
}

#[verifier::loop_isolation(false)]
fn check_blocked_by(ids: &Vec<UbuId>, own: &UbuId) -> (r: Result<(), UbuError>)
    ensures
        r == outcome_of(first_error(ids@.len() as int, |i: int| blocked_error(ids@, own@, i))),
{
    let ghost f = |i: int| blocked_error(ids@, own@, i);
    let mut i: usize = 0;
    while i < ids.len()
        invariant
            i <= ids@.len(),
            first_error(i as int, f) is None,
        decreases ids@.len() - i,
    {
        let id = &ids[i];
        if id.require_object_type(ObjectType::Task).is_err() {
            assert(first_error(i + 1, f) == Some(UbuError::InvalidTaskBlockedBy));
            proof { lemma_first_error_stays(i + 1, ids@.len() as int, f); }
            return Err(UbuError::InvalidTaskBlockedBy);
        }
        if id.same_as(own) {
            assert(first_error(i + 1, f) == Some(UbuError::TaskSelfBlocked));
            proof { lemma_first_error_stays(i + 1, ids@.len() as int, f); }
            return Err(UbuError::TaskSelfBlocked);
        }
        let mut j: usize = 0;
        while j < i
            invariant
                j <= i,
                forall|k: int| 0 <= k < j ==> ids@[k]@ != ids@[i as int]@,
            decreases i - j,
        {
            if ids[j].same_as(id) {
                assert(ids@[j as int]@ == ids@[i as int]@);
                assert(first_error(i + 1, f) == Some(UbuError::DuplicateTaskBlockedBy));
                proof { lemma_first_error_stays(i + 1, ids@.len() as int, f); }
                return Err(UbuError::DuplicateTaskBlockedBy);
            }
            j = j + 1;
        }
        assert(f(i as int) is None);
        i = i + 1;
    }
    Ok(())
}

impl Task {
    /// A Task with every optional field empty; it occupies capacity.
    pub fn new(id: UbuId, title: String, status: TaskStatus, provenance: Provenance) -> (r: Task)
        ensures
            r.id == id,
            r.title == title,
            r.status == status,
            r.provenance == provenance,
            r.description is None,
            r.moot_reason_code is None,
            r.objective_id is None,
            r.assignee is None,
            r.blocked_by@.len() == 0,
            r.due_at is None,
            r.duration_estimate is None,
            r.correlation_groups@.len() == 0,
            r.preconditions is None,
            r.effects is None,
            r.tags@.len() == 0,
            r.category_tag is None,
            r.occupies_capacity,
            r.static_window is None,
            r.allowed_time_range is None,
            r.occurrence is None,
    {
        Task {
            id,
            title,
            description: None,
            status,
            moot_reason_code: None,
            objective_id: None,
            assignee: None,
            blocked_by: Vec::new(),
            due_at: None,
            duration_estimate: None,
            correlation_groups: Vec::new(),
            preconditions: None,
            effects: None,
            provenance,
            tags: Vec::new(),
            category_tag: None,
            occupies_capacity: true,
            static_window: None,
            allowed_time_range: None,
            occurrence: None,
        }
    }

    /// Validate lifecycle and every Task field after construction or mutation.
    /// The lifecycle rule (`moot` requires a reason code and no other status has
    /// one) is checked first, then every field rule.
    pub fn validate(&self) -> (r: Result<(), UbuError>)
        ensures
            r is Ok <==> (lifecycle_ok(self.status, self.moot_reason_code) && task_fields_outcome(*self) is Ok),
            self.status == TaskStatus::Moot && self.moot_reason_code is None ==> r == Err::<(), UbuError>(UbuError::MissingMootReasonCode),
            self.status != TaskStatus::Moot && self.moot_reason_code is Some ==> (r matches Err(
                UbuError::UnexpectedMootReasonCode { status: s },
            ) && s@ == task_status_wire(self.status)),
            lifecycle_ok(self.status, self.moot_reason_code) ==> r == task_fields_outcome(*self),
    {
        crate::validation::validate_task_lifecycle(self)?;
        self.validate_fields()
    }

    /// Every field rule of a Task.
    pub fn validate_fields(&self) -> (r: Result<(), UbuError>)
        ensures
            r == task_fields_outcome(*self),
    {
        proof {
            reveal_with_fuel(first_failure, 11);
        }
        match &self.occurrence {
            Some(o) => {
                o.validate()?;
            },
            None => {},
        }
        match &self.assignee {
            Some(a) => {
                if a.id.require_object_type(ObjectType::Identity).is_err() {
                    return Err(UbuError::InvalidTaskAssignee);
                }
            },
            None => {},
        }
        check_blocked_by(&self.blocked_by, &self.id)?;
        match &self.duration_estimate {
            Some(e) => {
                e.validate()?;
            },
            None => {},
        }
        check_tags(&self.tags)?;
        TaskCorrelationGroup::validate_groups(self.correlation_groups.as_slice())?;
        match &self.category_tag {
            Some(c) => {
                validate_category_tag(c.as_str(), self.tags.as_slice())?;
            },
            None => {},
        }
        validate_scheduling_forms(self.static_window.is_some(), self.allowed_time_range.is_some())?;
        match &self.allowed_time_range {
            Some(a) => {
                a.validate()?;
            },
            None => {},
        }
        match &self.static_window {
            Some(w) => {
                w.validate()?;
            },
            None => {},
        }
        Ok(())
    }
}

} // verus!
