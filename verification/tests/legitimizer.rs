use ubu_core::{
    AuthoritySource, ExportGateDecision, ExportProjectionContext, JsonValue, Legitimization,
    Legitimizer, ObjectRef, ObjectType, PolicySummary, Provenance, SourceRef, UbuId, UbuTimestamp,
};
use ubu_core::projection::{ProjectionOperation, ProjectionOperationKind};

struct PolicyCase {
    name: &'static str,
    effective_policy: Option<PolicySummary>,
    worker_legitimization: Legitimization,
}

fn timestamp() -> UbuTimestamp {
    UbuTimestamp::parse("2026-06-10T14:30:00Z").expect("valid timestamp")
}

fn operation() -> ProjectionOperation {
    ProjectionOperation {
        operation_id: "op-label-1".to_owned(),
        kind: ProjectionOperationKind::Label,
        target: SourceRef {
            source_kind: "github_issue".to_owned(),
            source_id: "UbU-project/ubu-core#123".to_owned(),
            url: None,
        },
        summary: "Apply managed GitHub label".to_owned(),
        payload: None,
    }
}

fn operation_with_sensitive_boundary_identity() -> ProjectionOperation {
    ProjectionOperation {
        operation_id: "op-redaction-identity".to_owned(),
        kind: ProjectionOperationKind::Label,
        target: SourceRef {
            source_kind: "github_issue".to_owned(),
            source_id: "UbU-project/ubu-core#456".to_owned(),
            url: None,
        },
        summary: "Apply Project Cerulean / S2-secret-label".to_owned(),
        payload: Some(JsonValue::Object(vec![
            ("compartment_name".to_owned(), JsonValue::String("Project Cerulean".to_owned())),
            (
                "labels".to_owned(),
                JsonValue::Array(vec![JsonValue::String("S2-secret-label".to_owned())]),
            ),
        ])),
    }
}

fn policy(legitimization: Legitimization, local_only: Option<bool>, no_external_export: Option<bool>) -> PolicySummary {
    PolicySummary {
        legitimization,
        adjudication_reasons: Vec::new(),
        local_only,
        no_cloud_llm: None,
        no_external_export,
        checked_at: timestamp(),
    }
}

fn object_ref(object_type: ObjectType) -> ObjectRef {
    ObjectRef { id: UbuId::new(object_type), object_type }
}

fn provenance() -> Provenance {
    Provenance {
        created_at: timestamp(),
        created_by: Some("legitimizer-test".to_owned()),
        authority_source: AuthoritySource::Policy,
        source: None,
    }
}

fn gate(
    operation: &ProjectionOperation,
    effective_policy: Option<&PolicySummary>,
    authority_source: AuthoritySource,
) -> ExportGateDecision {
    let compartment_ref = object_ref(ObjectType::Compartment);
    let actor_identity_ref = object_ref(ObjectType::Identity);
    let provenance = provenance();
    Legitimizer::gate_export_projection(ExportProjectionContext {
        operation,
        effective_policy,
        compartment_ref: &compartment_ref,
        actor_identity_ref: &actor_identity_ref,
        authority_source,
        effective_time: timestamp(),
        provenance: &provenance,
    })
}

fn policy_cases() -> Vec<PolicyCase> {
    vec![
        PolicyCase {
            name: "export_permitted",
            effective_policy: Some(policy(Legitimization::Accepted, Some(false), Some(false))),
            worker_legitimization: Legitimization::Accepted,
        },
        PolicyCase {
            name: "no_external_export",
            effective_policy: Some(policy(Legitimization::Accepted, Some(false), Some(true))),
            worker_legitimization: Legitimization::Rejected,
        },
        PolicyCase {
            name: "local_only",
            effective_policy: Some(policy(Legitimization::Accepted, Some(true), Some(false))),
            worker_legitimization: Legitimization::Rejected,
        },
        PolicyCase { name: "unresolved_policy", effective_policy: None, worker_legitimization: Legitimization::Rejected },
        PolicyCase {
            name: "needs_review",
            effective_policy: Some(policy(Legitimization::NeedsReview, Some(false), Some(false))),
            worker_legitimization: Legitimization::NeedsReview,
        },
    ]
}

fn authority_sources() -> [AuthoritySource; 6] {
    [
        AuthoritySource::User,
        AuthoritySource::UserOverride,
        AuthoritySource::Delegated,
        AuthoritySource::AutomationWorker,
        AuthoritySource::Policy,
        AuthoritySource::System,
    ]
}

#[test]
fn export_gate_denies_by_default_and_only_permits_worker_accepted_adjudication() {
    let operation = operation();
    for policy_case in policy_cases() {
        for authority_source in authority_sources() {
            let gate_decision = gate(&operation, policy_case.effective_policy.as_ref(), authority_source);
            let decision = &gate_decision.decision;
            let expected_legitimization = if authority_source == AuthoritySource::AutomationWorker {
                policy_case.worker_legitimization
            } else {
                Legitimization::Rejected
            };
            let should_permit = expected_legitimization == Legitimization::Accepted
                && authority_source == AuthoritySource::AutomationWorker;

            assert_eq!(decision.legitimization, expected_legitimization, "{} with {:?}", policy_case.name, authority_source);
            assert_eq!(
                decision.log_payload.adjudication_result, expected_legitimization,
                "{} with {:?}",
                policy_case.name, authority_source
            );
            assert_eq!(gate_decision.permit().is_some(), should_permit, "{} with {:?}", policy_case.name, authority_source);
            assert!(!decision.adjudication_reasons.is_empty());
            assert!(!decision.log_payload.reason.is_empty());
            assert_eq!(decision.log_payload.compartment_ref.object_type, ObjectType::Compartment);
            assert_eq!(decision.log_payload.actor_identity_ref.object_type, ObjectType::Identity);
            assert_eq!(decision.log_payload.authority_source, authority_source);
            assert_eq!(decision.log_payload.effective_time, timestamp());

            if let Some(permit) = gate_decision.permit() {
                assert_eq!(permit.operation_id(), operation.operation_id);
                assert_eq!(permit.authority_source(), AuthoritySource::AutomationWorker);
            }

            if matches!(authority_source, AuthoritySource::User | AuthoritySource::UserOverride) {
                assert!(decision.adjudication_reasons.iter().any(|reason| reason.contains("user-equivalent")));
            }

            if authority_source != AuthoritySource::AutomationWorker {
                assert!(decision.adjudication_reasons.iter().any(|reason| reason.contains("automation_worker")));
            }
        }
    }
}

#[test]
fn denied_export_path_does_not_leak_compartment_names_or_labels() {
    let operation = operation_with_sensitive_boundary_identity();
    let effective_policy = policy(Legitimization::Accepted, Some(true), Some(false));
    let gate_decision = gate(&operation, Some(&effective_policy), AuthoritySource::AutomationWorker);

    assert_eq!(gate_decision.decision.legitimization, Legitimization::Rejected);
    assert!(gate_decision.permit().is_none());

    let denial_reasons = format!("{:?}", gate_decision.decision.adjudication_reasons);
    let log_payload = format!("{:?}", gate_decision.decision.log_payload);

    for denied_boundary_identity in ["Project Cerulean", "S2-secret-label"] {
        assert!(!denial_reasons.contains(denied_boundary_identity), "denial reasons leaked {denied_boundary_identity}");
        assert!(!log_payload.contains(denied_boundary_identity), "log payload leaked {denied_boundary_identity}");
    }
}

#[test]
fn decision_method_reads_the_decision_field() {
    let operation = operation_with_sensitive_boundary_identity();
    let effective_policy = policy(Legitimization::Accepted, Some(true), Some(false));
    let gate_decision = gate(&operation, Some(&effective_policy), AuthoritySource::AutomationWorker);
    assert_eq!(gate_decision.decision(), &gate_decision.decision);
    assert_eq!(gate_decision.decision().legitimization, Legitimization::Rejected);
}
