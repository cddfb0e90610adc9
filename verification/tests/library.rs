use ubu_core::advisory_candidate::{
    AdvisoryCandidate, AdvisoryCandidateId, CandidateKind, CandidateLifecycleState, CandidateLinks,
    CandidatePayload, DisclosurePolicy, ProposingActor, ResurfaceTrigger, RetentionPolicy, ReviewLabel,
    SuppressionDecision,
};
use ubu_core::core_model::routine::{
    routine_occurrence_key, validate_local_date, validate_local_time, validate_timezone, RoutinePlacement,
};
use ubu_core::float_bits::{f64_bits_equal, i64_to_f64_bits, u64_to_f64_bits};
use ubu_core::id_registry::{object_type_for_prefix, object_type_from_id, prefix_entries, prefix_for};
use ubu_core::validation::{validate_id, validate_id_for_type, validate_timestamp};
use ubu_core::core_model::PreferenceSubjects;
use ubu_core::json::json_equal;
use ubu_core::json_text::is_well_formed;
use ubu_core::worker::{AdvisoryCapability, WorkerAuthority};
use ubu_core::{
    transition, AuthoritySource, CompartmentLabel, DeviceId, IdempotencyKey, JsonValue, KeyedList,
    JsonNumber, ObjectType, TextSet, UbuError, UbuId, UbuTimestamp,
};

#[test]
fn every_prefix_names_its_type_and_back() {
    let entries = prefix_entries();
    assert_eq!(entries.len(), 16);
    for entry in &entries {
        assert_eq!(prefix_for(entry.object_type), entry.prefix);
        assert_eq!(object_type_for_prefix(entry.prefix), Some(entry.object_type));
    }
    assert_eq!(prefix_for(ObjectType::Task), "task_");
    assert_eq!(prefix_for(ObjectType::ExternalEvent), "xevent_");
    assert_eq!(object_type_for_prefix("nope_"), None);
    assert_eq!(object_type_from_id("task_018f3c8e9b2a7c4d8f1e2a3b4c5d6e7f"), Some(ObjectType::Task));
    assert_eq!(object_type_from_id("container_x_y"), Some(ObjectType::Container));
    assert_eq!(object_type_from_id("nounderscore"), None);
    assert_eq!(object_type_from_id("nope_1"), None);
}

#[test]
fn identifiers_parse_and_name_their_types() {
    let id = UbuId::parse("task_018f3c8e9b2a7c4d8f1e2a3b4c5d6e7f").unwrap();
    assert_eq!(id.object_type(), ObjectType::Task);
    assert_eq!(id.prefix(), "task_");
    assert_eq!(UbuId::parse("TASK_018f3c8e9b2a7c4d8f1e2a3b4c5d6e7f"), Err(UbuError::InvalidId {
        value: "TASK_018f3c8e9b2a7c4d8f1e2a3b4c5d6e7f".to_owned(),
    }));
    assert_eq!(UbuId::parse("task_018f3c8e9b2a6c4d8f1e2a3b4c5d6e7f").is_err(), true);
    assert_eq!(UbuId::parse("zzz_018f3c8e9b2a7c4d8f1e2a3b4c5d6e7f"), Err(UbuError::UnknownIdPrefix {
        prefix: "zzz_".to_owned(),
    }));
    assert_eq!(
        id.require_object_type(ObjectType::Identity),
        Err(UbuError::WrongIdObjectType {
            id: "task_018f3c8e9b2a7c4d8f1e2a3b4c5d6e7f".to_owned(),
            expected: "Identity",
            actual: "Task",
        })
    );
    for t in [ObjectType::Task, ObjectType::Identity, ObjectType::UniverseState] {
        let fresh = UbuId::new(t);
        assert_eq!(fresh.object_type(), t);
        assert_eq!(UbuId::parse(fresh.as_str()).unwrap(), fresh);
        assert_ne!(UbuId::new(t), fresh);
    }
    assert_eq!(validate_id("obj_018f3c8e9b2a7c4d8f1e2a3b4c5d6e7f").unwrap().object_type(), ObjectType::Objective);
    assert!(validate_id_for_type("obj_018f3c8e9b2a7c4d8f1e2a3b4c5d6e7f", ObjectType::Task).is_err());
}

#[test]
fn timestamps_compare_by_instant_and_print_back() {
    let a = UbuTimestamp::parse("2026-06-10T02:00:00Z").unwrap();
    let b = UbuTimestamp::parse("2026-06-10T04:00:00+02:00").unwrap();
    assert_eq!(a, b);
    assert_eq!(b.offset_seconds(), 7200);
    assert_eq!(b.to_rfc3339().unwrap(), "2026-06-10T04:00:00+02:00");
    assert!(!a.is_before(&b));
    assert!(validate_timestamp("2026-06-10T02:00:00").is_err());
    assert_eq!(
        UbuTimestamp::parse("yesterday"),
        Err(UbuError::InvalidTimestamp { value: "yesterday".to_owned() })
    );
}

#[test]
fn integers_convert_to_the_nearest_double() {
    for u in [0u64, 1, 2, 3, 12345, (1 << 53) + 1, (1 << 53) + 3, u64::MAX, 0x8000_0000_0000_0401] {
        assert_eq!(u64_to_f64_bits(u), (u as f64).to_bits(), "{u}");
    }
    for i in [0i64, -1, -5, i64::MIN, i64::MIN + 1, 42] {
        assert_eq!(i64_to_f64_bits(i), (i as f64).to_bits(), "{i}");
    }
    assert!(f64_bits_equal(0.0f64.to_bits(), (-0.0f64).to_bits()));
    assert!(!f64_bits_equal(f64::NAN.to_bits(), f64::NAN.to_bits()));
    assert!(f64_bits_equal(1.5f64.to_bits(), 1.5f64.to_bits()));
    assert!(!f64_bits_equal(1.5f64.to_bits(), 2.5f64.to_bits()));
}

#[test]
fn keyed_list_behaves_as_a_map() {
    let mut m: KeyedList<u64> = KeyedList::new();
    assert!(m.is_empty());
    m.insert("a".to_owned(), 1);
    m.insert("b".to_owned(), 2);
    m.insert("a".to_owned(), 3);
    assert_eq!(m.len(), 2);
    assert_eq!(m.get("a"), Some(&3));
    assert_eq!(m.remove("a"), Some(3));
    assert_eq!(m.remove("a"), None);
    assert!(!m.contains_key("a"));
    assert_eq!(m.get("b"), Some(&2));
}

#[test]
fn text_sets_keep_ascending_order() {
    let mut s = TextSet::new();
    for item in ["pear", "apple", "fig", "apple", "Zebra"] {
        s.insert(item);
    }
    assert_eq!(s.items(), ["Zebra", "apple", "fig", "pear"]);
    assert!(s.contains("fig"));
    assert!(!s.contains("grape"));
}

#[test]
fn lifecycle_transitions_follow_the_edges() {
    assert_eq!(transition(CandidateLifecycleState::Proposed, CandidateLifecycleState::Deferred, None), Ok(CandidateLifecycleState::Deferred));
    assert_eq!(
        transition(CandidateLifecycleState::Deferred, CandidateLifecycleState::Resurfaced, None),
        Err(UbuError::InvalidResurfaceTrigger { current: CandidateLifecycleState::Deferred, next: CandidateLifecycleState::Resurfaced })
    );
    assert_eq!(transition(CandidateLifecycleState::Deferred, CandidateLifecycleState::Resurfaced, Some(ResurfaceTrigger::UserRequest)), Ok(CandidateLifecycleState::Resurfaced));
    assert_eq!(
        transition(CandidateLifecycleState::Proposed, CandidateLifecycleState::Rejected, Some(ResurfaceTrigger::UserRequest)),
        Err(UbuError::InvalidResurfaceTrigger { current: CandidateLifecycleState::Proposed, next: CandidateLifecycleState::Rejected })
    );
    for next in [CandidateLifecycleState::Proposed, CandidateLifecycleState::Deferred, CandidateLifecycleState::Resurfaced, CandidateLifecycleState::Admitted, CandidateLifecycleState::Rejected, CandidateLifecycleState::Superseded, CandidateLifecycleState::Archived] {
        assert_eq!(
            transition(CandidateLifecycleState::Archived, next, None),
            Err(UbuError::InvalidCandidateTransition { current: CandidateLifecycleState::Archived, next })
        );
    }
    assert!(CandidateLifecycleState::Archived.is_terminal());
    assert!(CandidateLifecycleState::Resurfaced.is_active_queue());
    assert!(!CandidateLifecycleState::Deferred.is_active_queue());
    assert!(CandidateLifecycleState::Rejected.can_transition_to(CandidateLifecycleState::Archived));
    assert!(!CandidateLifecycleState::Proposed.can_transition_to(CandidateLifecycleState::Resurfaced));
}

#[test]
fn candidate_ids_accept_only_the_canonical_uuidv7_spelling() {
    let id = AdvisoryCandidateId::generate();
    assert!(id.as_str().starts_with("advcand_"));
    assert_eq!(AdvisoryCandidateId::parse(id.as_str()).unwrap(), id);
    let good = "advcand_018f3c8e9b2a7c4d8f1e2a3b4c5d6e7f";
    assert!(AdvisoryCandidateId::parse(good).is_ok());
    for bad in [
        "advcand_018F3C8E9B2A7C4D8F1E2A3B4C5D6E7F",
        "advcand_018f3c8e9b2a6c4d8f1e2a3b4c5d6e7f",
        "advcand_018f3c8e9b2a7c4dcf1e2a3b4c5d6e7f",
        "advcand_018f3c8e-9b2a-7c4d-8f1e-2a3b4c5d",
        "cand_018f3c8e9b2a7c4d8f1e2a3b4c5d6e7f",
        "",
    ] {
        assert_eq!(
            AdvisoryCandidateId::parse(bad),
            Err(UbuError::InvalidAdvisoryCandidateId { value: bad.to_owned() })
        );
    }
}

fn candidate() -> AdvisoryCandidate {
    let mut ids = TextSet::new();
    ids.insert("comp_018f3c8e9b2a7c4d8f1e2a3b4c5d6e7f");
    AdvisoryCandidate {
        advisory_candidate_id: AdvisoryCandidateId::generate(),
        schema_version: "advisory-candidate/1".to_owned(),
        candidate_kind: CandidateKind::Tag,
        lifecycle_state: CandidateLifecycleState::Rejected,
        version: 1,
        target_refs: Vec::new(),
        normalized_proposal: JsonValue::String("focus".to_owned()),
        payload: CandidatePayload::RedactedSummary("a tag".to_owned()),
        evidence_refs: Vec::new(),
        confidence: Some(0.5f64.to_bits()),
        field_provenance: KeyedList::new(),
        proposed_at: UbuTimestamp::parse("2026-06-10T02:00:00Z").unwrap(),
        effective_time: None,
        proposing_actor: ProposingActor {
            model_or_tool_name: "tagger".to_owned(),
            version: "1".to_owned(),
            prompt_template_digest: None,
        },
        origin_device_id: DeviceId::parse("local").unwrap(),
        execution_context: None,
        idempotency_key: IdempotencyKey::parse("k1").unwrap(),
        suppression_key: Some("tag:focus".to_owned()),
        compartment_ids: ids,
        review_label: ReviewLabel::Label(CompartmentLabel::parse("Work").unwrap()),
        disclosure_policy: DisclosurePolicy::CompartmentOnly,
        retention_policy: RetentionPolicy::Retain,
        review_order: None,
        links: CandidateLinks::default(),
    }
}

fn decision() -> SuppressionDecision {
    SuppressionDecision {
        deciding_actor_identity_id: UbuId::new(ObjectType::Identity),
        authority_source: AuthoritySource::User,
        decided_at: UbuTimestamp::parse("2026-06-11T02:00:00Z").unwrap(),
        rejection_reason_or_user_correction: "not a tag".to_owned(),
        retention_policy: RetentionPolicy::PurgePayload,
        evidence_hashes_or_source_fingerprints: vec!["sha256:abc".to_owned()],
    }
}

#[test]
fn candidate_validation_reports_the_first_broken_rule() {
    candidate().validate().unwrap();
    let mut c = candidate();
    c.confidence = Some(1.5f64.to_bits());
    c.version = 0;
    assert_eq!(c.validate(), Err(UbuError::InvalidCandidateRecord { field: "confidence" }));
    let mut c = candidate();
    c.confidence = Some((-0.0f64).to_bits());
    c.version = 0;
    assert_eq!(c.validate(), Err(UbuError::InvalidCandidateRecord { field: "version" }));
    let mut c = candidate();
    c.schema_version.clear();
    assert_eq!(c.validate(), Err(UbuError::InvalidCandidateRecord { field: "schema_version" }));
    let mut c = candidate();
    c.compartment_ids.insert("Work");
    assert_eq!(c.validate(), Err(UbuError::InvalidId { value: "Work".to_owned() }));
    let mut c = candidate();
    c.lifecycle_state = CandidateLifecycleState::Resurfaced;
    assert_eq!(c.validate(), Err(UbuError::InvalidCandidateRecord { field: "links" }));
    c.links.prior_deferral_ref = Some("defer-1".to_owned());
    c.links.resurface_trigger = Some(ResurfaceTrigger::UserRequest);
    c.validate().unwrap();
}

#[test]
fn suppression_record_needs_a_rejected_candidate_with_a_key() {
    let record = candidate().suppression_record(decision()).unwrap();
    assert_eq!(record.suppression_key, "tag:focus");
    assert_eq!(record.candidate_kind, CandidateKind::Tag);
    assert_eq!(record.normalized_proposal, JsonValue::String("focus".to_owned()));
    assert_eq!(record.rejection_reason_or_user_correction, "not a tag");
    assert_eq!(record.retention_policy, RetentionPolicy::PurgePayload);
    assert_eq!(record.compartment_ids.items(), ["comp_018f3c8e9b2a7c4d8f1e2a3b4c5d6e7f"]);
    record.validate().unwrap();

    let mut deferred = candidate();
    deferred.lifecycle_state = CandidateLifecycleState::Deferred;
    assert_eq!(
        deferred.suppression_record(decision()),
        Err(UbuError::CandidateNotRejected { state: CandidateLifecycleState::Deferred })
    );
    let mut keyless = candidate();
    keyless.suppression_key = None;
    assert_eq!(
        keyless.suppression_record(decision()),
        Err(UbuError::InvalidSuppressionRecord { field: "suppression_key" })
    );
    let mut empty_reason = decision();
    empty_reason.rejection_reason_or_user_correction.clear();
    assert_eq!(
        candidate().suppression_record(empty_reason),
        Err(UbuError::InvalidSuppressionRecord { field: "rejection_reason_or_user_correction" })
    );
    let mut task_decider = decision();
    task_decider.deciding_actor_identity_id = UbuId::new(ObjectType::Task);
    assert!(matches!(
        candidate().suppression_record(task_decider),
        Err(UbuError::WrongIdObjectType { .. })
    ));
}

#[test]
fn worker_may_propose_only_granted_kinds() {
    let authority = WorkerAuthority {
        worker_id: UbuId::new(ObjectType::AutomationWorker),
        authority_source: AuthoritySource::AutomationWorker,
        granted: vec![AdvisoryCapability::EmitTelemetry, AdvisoryCapability::ProposeCandidate(CandidateKind::Tag)],
        deadline: None,
    };
    assert!(authority.may_propose(CandidateKind::Tag));
    assert!(!authority.may_propose(CandidateKind::Dependency));
}

#[test]
fn routine_helpers_check_dates_times_zones_and_spell_keys() {
    assert!(validate_timezone("UTC").is_ok());
    assert!(validate_timezone("Europe/Berlin").is_ok());
    assert_eq!(validate_timezone("Berlin"), Err(UbuError::InvalidRecurrenceTimezone));
    assert!(validate_local_date("2026-02-28").is_ok());
    assert_eq!(validate_local_date("2026-02-30"), Err(UbuError::InvalidRecurrenceDate));
    assert!(validate_local_time("23:59:59").is_ok());
    assert_eq!(validate_local_time("24:00:00"), Err(UbuError::InvalidRoutineLocalTime));
    let objective = UbuId::parse("obj_018f3c8e9b2a7c4d8f1e2a3b4c5d6e7f").unwrap();
    assert_eq!(
        routine_occurrence_key(&objective, 3, "2026-06-10", "09:30:00", RoutinePlacement::Static, 2),
        format!("obj_018f3c8e9b2a7c4d8f1e2a3b4c5d6e7f/s3/2026-06-10T09:30:00/{}/t2", RoutinePlacement::Static.as_str())
    );
}

#[test]
fn unique_texts_refuse_a_repeated_entry() {
    let set = TextSet::from_unique(&["b".to_string(), "a".to_string(), "c".to_string()]).unwrap();
    assert_eq!(set.items(), &["a".to_string(), "b".to_string(), "c".to_string()]);
    assert!(TextSet::from_unique(&["a".to_string(), "b".to_string(), "a".to_string()]).is_none());
    assert!(TextSet::from_unique(&[]).unwrap().is_empty());
}

#[test]
fn preference_subjects_come_from_exactly_one_pair() {
    let a = UbuId::new(ObjectType::Task);
    let b = UbuId::new(ObjectType::Task);
    let subjects = PreferenceSubjects::from_fields(Some(a.clone()), Some(b.clone()), None, None).unwrap();
    assert_eq!(subjects, PreferenceSubjects::Tasks { a: a.clone(), b: b.clone() });
    assert_eq!(subjects.into_fields(), (Some(a.clone()), Some(b.clone()), None, None));
    assert_eq!(
        PreferenceSubjects::from_fields(Some(a.clone()), None, None, Some(b.clone())),
        Err(UbuError::InvalidPreferenceSubjects)
    );
    assert_eq!(
        PreferenceSubjects::from_fields(None, None, None, None),
        Err(UbuError::InvalidPreferenceSubjects)
    );
    let o = UbuId::new(ObjectType::Objective);
    let p = UbuId::new(ObjectType::Objective);
    let subjects = PreferenceSubjects::from_fields(None, None, Some(o.clone()), Some(p.clone())).unwrap();
    assert_eq!(subjects, PreferenceSubjects::Objectives { a: o, b: p });
}

#[test]
fn json_values_equal_themselves_and_wellformedness_is_checked() {
    let nested = JsonValue::Object(vec![
        ("b".to_string(), JsonValue::Array(vec![JsonValue::Null, JsonValue::Bool(true)])),
        ("a".to_string(), JsonValue::Number(JsonNumber::Float { bits: 1.5f64.to_bits(), text: "1.5".to_string() })),
    ]);
    assert!(json_equal(&nested, &nested));
    assert!(is_well_formed(&nested));
    let reordered = JsonValue::Object(vec![
        ("a".to_string(), JsonValue::Number(JsonNumber::Float { bits: 1.5f64.to_bits(), text: "1.5".to_string() })),
        ("b".to_string(), JsonValue::Array(vec![JsonValue::Null, JsonValue::Bool(true)])),
    ]);
    assert!(json_equal(&nested, &reordered));
    let repeated = JsonValue::Object(vec![
        ("a".to_string(), JsonValue::Null),
        ("a".to_string(), JsonValue::Bool(false)),
    ]);
    assert!(!is_well_formed(&repeated));
    let nan = JsonValue::Number(JsonNumber::Float { bits: f64::NAN.to_bits(), text: "NaN".to_string() });
    assert!(!is_well_formed(&JsonValue::Array(vec![nan])));
    assert!(!json_equal(&JsonValue::Number(JsonNumber::PosInt(1)), &JsonValue::Number(JsonNumber::Float {
        bits: 1.0f64.to_bits(),
        text: "1.0".to_string(),
    })));
}

#[test]
fn error_messages_spell_the_rule() {
    assert_eq!(
        UbuError::InvalidPreferenceSubjects.message(),
        "Preference subjects must be exactly one complete pair of Task IDs or Objective IDs"
    );
}

#[test]
fn candidate_vocabularies_read_back_from_their_spellings() {
    for (state, spelling) in [
        (CandidateLifecycleState::Proposed, "proposed"),
        (CandidateLifecycleState::Deferred, "deferred"),
        (CandidateLifecycleState::Resurfaced, "resurfaced"),
        (CandidateLifecycleState::Admitted, "admitted"),
        (CandidateLifecycleState::Rejected, "rejected"),
        (CandidateLifecycleState::Superseded, "superseded"),
        (CandidateLifecycleState::Archived, "archived"),
    ] {
        assert_eq!(state.wire(), spelling);
        assert_eq!(CandidateLifecycleState::from_wire(spelling), Some(state));
    }
    assert_eq!(CandidateKind::ClarificationQuestion.wire(), "clarification_question");
    assert_eq!(CandidateKind::from_wire("decomposition"), Some(CandidateKind::Decomposition));
    assert_eq!(
        ResurfaceTrigger::from_wire("accepted_change_to_target_or_dependencies"),
        Some(ResurfaceTrigger::AcceptedChangeToTargetOrDependencies)
    );
    assert_eq!(RetentionPolicy::PurgePayload.wire(), "purge_payload");
    assert_eq!(DisclosurePolicy::from_wire("redacted_only"), Some(DisclosurePolicy::RedactedOnly));
    assert_eq!(CandidateKind::from_wire("Tag"), None);
    assert_eq!(CandidateLifecycleState::from_wire("open"), None);
}
