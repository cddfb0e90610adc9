use ubu_core::core_model::task::{Task, TaskCorrelationGroup, TaskDurationEstimate, TaskStatus};
use ubu_core::errors::{CorrelationGroupViolation, DurationEstimateViolation};
use ubu_core::planning::TaskSpec;
use ubu_core::{AuthoritySource, ObjectType, Provenance, UbuError, UbuId, UbuTimestamp};

fn base_task() -> Task {
    Task::new(
        UbuId::new(ObjectType::Task),
        "Example".to_owned(),
        TaskStatus::Active,
        Provenance {
            created_at: UbuTimestamp::parse("2026-06-22T12:00:00Z").expect("valid timestamp"),
            created_by: None,
            authority_source: AuthoritySource::User,
            source: None,
        },
    )
}

fn group(name: &str, strength: f64) -> TaskCorrelationGroup {
    TaskCorrelationGroup { group: name.to_owned(), strength: strength.to_bits() }
}

#[test]
fn task_validation_rejects_blocking_and_tag_errors() {
    let mut task = base_task();
    task.blocked_by = vec![task.id.clone()];
    assert_eq!(task.validate_fields(), Err(UbuError::TaskSelfBlocked));
    let other = UbuId::new(ObjectType::Task);
    task.blocked_by = vec![other.clone(), other];
    assert_eq!(task.validate_fields(), Err(UbuError::DuplicateTaskBlockedBy));
    task.blocked_by.clear();
    task.tags = vec![String::new()];
    assert_eq!(task.validate_fields(), Err(UbuError::EmptyTaskTag));
    task.tags = vec!["focus".into(), "focus".into()];
    assert_eq!(task.validate_fields(), Err(UbuError::DuplicateTaskTag));
}

#[test]
fn task_validation_rejects_duration_and_correlation_errors() {
    let mut task = base_task();
    task.duration_estimate = Some(TaskDurationEstimate::Fixed { seconds: 0 });
    assert_eq!(
        task.validate_fields(),
        Err(UbuError::InvalidTaskDurationEstimate { violation: DurationEstimateViolation::ZeroSeconds })
    );
    task.duration_estimate =
        Some(TaskDurationEstimate::ShiftedLognormalP95 { min_seconds: 10, mode_seconds: 10, p95_seconds: 20 });
    assert_eq!(
        task.validate_fields(),
        Err(UbuError::InvalidTaskDurationEstimate { violation: DurationEstimateViolation::NotStrictlyIncreasing })
    );
    task.duration_estimate = None;
    task.correlation_groups = vec![group("g", 0.5), group("g", 0.5)];
    assert_eq!(
        task.validate_fields(),
        Err(UbuError::InvalidTaskCorrelationGroup { violation: CorrelationGroupViolation::DuplicateName })
    );
}

#[test]
fn estimate_and_correlation_violations_preserve_acceptance_and_detail() {
    for (min_seconds, mode_seconds, p95_seconds) in [(10, 10, 20), (11, 10, 20), (0, 10, 10), (0, 11, 10)] {
        let error = TaskDurationEstimate::ShiftedLognormalP95 { min_seconds, mode_seconds, p95_seconds }
            .validate()
            .unwrap_err();
        assert_eq!(
            error,
            UbuError::InvalidTaskDurationEstimate { violation: DurationEstimateViolation::NotStrictlyIncreasing }
        );
        assert!(error.message().contains("min_seconds < mode_seconds < p95_seconds"));
    }
    let error = TaskDurationEstimate::Fixed { seconds: 0 }.validate().unwrap_err();
    assert!(error.message().contains("seconds must be greater than zero"));
    for strength in [-0.1, 1.1, f64::NAN, f64::NEG_INFINITY, f64::INFINITY] {
        let mut task = base_task();
        task.correlation_groups = vec![group("g", strength)];
        let error = task.validate_fields().unwrap_err();
        assert_eq!(
            error,
            UbuError::InvalidTaskCorrelationGroup { violation: CorrelationGroupViolation::StrengthOutOfRange }
        );
        assert!(error.message().contains("strength must be between zero and one"));
    }
    for strength in [0.0, 0.5, 1.0] {
        TaskCorrelationGroup::validate_groups(&[group("", strength)]).unwrap();
    }
    TaskCorrelationGroup::validate_groups(&[]).unwrap();
    TaskDurationEstimate::Fixed { seconds: 1 }.validate().unwrap();
    TaskDurationEstimate::ShiftedLognormalP95 { min_seconds: 0, mode_seconds: 1, p95_seconds: 2 }.validate().unwrap();
}

#[test]
fn negative_zero_strength_lies_in_the_unit_interval() {
    TaskCorrelationGroup::validate_groups(&[group("g", -0.0)]).unwrap();
    assert_eq!(
        TaskCorrelationGroup::validate_groups(&[group("g", 1.0 + f64::EPSILON)]),
        Err(UbuError::InvalidTaskCorrelationGroup { violation: CorrelationGroupViolation::StrengthOutOfRange })
    );
}

#[test]
fn error_messages_follow_their_templates() {
    assert_eq!(
        UbuError::InvalidTaskDurationEstimate { violation: DurationEstimateViolation::ZeroSeconds }.message(),
        "core/task schema: duration_estimate.fixed.seconds must be greater than zero"
    );
    assert_eq!(
        UbuError::WrongIdObjectType { id: "task_x".to_owned(), expected: "Identity", actual: "Task" }.message(),
        "id `task_x` has object type `Task`, expected `Identity`"
    );
    assert_eq!(
        UbuError::CandidateNotRejected { state: ubu_core::CandidateLifecycleState::Deferred }.message(),
        "suppression requires a rejected candidate, got Deferred"
    );
}

#[test]
fn task_to_task_spec_projects_duration_models() {
    let mut task = base_task();
    assert!(TaskSpec::from_task(&task).estimate.is_none());
    task.duration_estimate = Some(TaskDurationEstimate::Fixed { seconds: 120 });
    assert_eq!(TaskSpec::from_task(&task).estimate.unwrap().seconds, 120);
    task.duration_estimate = Some(TaskDurationEstimate::ShiftedLognormalP95 {
        min_seconds: 10,
        mode_seconds: 20,
        p95_seconds: 90,
    });
    assert_eq!(TaskSpec::from_task(&task).estimate.unwrap().seconds, 90);
    assert_eq!(TaskSpec::from_task(&task).title, "Example");
}

#[test]
fn validate_checks_lifecycle_then_every_field() {
    let mut task = base_task();
    task.validate().unwrap();
    task.blocked_by = vec![task.id.clone()];
    assert_eq!(task.validate(), Err(UbuError::TaskSelfBlocked));
    task.status = TaskStatus::Moot;
    assert_eq!(task.validate(), Err(UbuError::MissingMootReasonCode));
}
