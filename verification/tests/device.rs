use std::collections::BTreeSet;

use ubu_core::{
    CompartmentLabel, DeviceId, DeviceKind, DeviceRegistration, DeviceRegistry, ObjectType,
    SyncState, TextSet, TrustState, UbuError, UbuId, UbuTimestamp, ZoneId,
};

fn set(items: &[&str]) -> TextSet {
    let mut s = TextSet::new();
    for item in items {
        s.insert(item);
    }
    s
}

fn registration() -> DeviceRegistration {
    DeviceRegistration {
        device_id: DeviceId::parse("phase1b-local-device").unwrap(),
        label: "Phase 1b workstation".to_owned(),
        kind: DeviceKind::OsUserProfile,
        registered_at: UbuTimestamp::parse("2026-06-01T09:00:00Z").unwrap(),
        registered_identity_id: UbuId::new(ObjectType::Identity),
        trust_state: TrustState::Registered,
        sync_state: SyncState::LocalOnly,
        zone_id: ZoneId::parse("zone-local").unwrap(),
        capability_profile: set(&["admission", "local_advisory"]),
        compartment_access: set(&["Personal", "Work"]),
        last_seen_at: None,
    }
}

fn label(value: &str) -> CompartmentLabel {
    CompartmentLabel::parse(value).unwrap()
}

#[test]
fn validate_rejects_non_identity_association() {
    let mut value = registration();
    value.registered_identity_id = UbuId::parse("task_018f3c8e9b2a7c4d8f1e2a3b4c5d6e7f").unwrap();
    assert!(matches!(value.validate(), Err(UbuError::WrongIdObjectType { .. })));
}

#[test]
fn validate_rejects_empty_label_zone_and_capability() {
    let mut value = registration();
    value.label.clear();
    assert_eq!(value.validate(), Err(UbuError::EmptyDeviceLabel));
    assert_eq!(ZoneId::parse(""), Err(UbuError::EmptyZoneId));
    let mut value = registration();
    value.capability_profile.insert("");
    assert_eq!(value.validate(), Err(UbuError::EmptyDeviceCapability));
    value.capability_profile = TextSet::new();
    value.validate().unwrap();
}

#[test]
fn compartment_access_defaults_to_deny() {
    let mut value = registration();
    assert!(value.may_access(&label("Personal")));
    for absent in ["Private", "Personal/Secret", "personal"] {
        assert!(!value.may_access(&label(absent)));
    }
    value.compartment_access = TextSet::new();
    for name in ["Personal", "Work", "Private", "Personal/Secret", "personal"] {
        assert!(!value.may_access(&label(name)));
    }
}

#[test]
fn revoked_device_cannot_originate_mutations() {
    let mut value = registration();
    assert!(value.may_originate_mutations());
    value.trust_state = TrustState::Revoked;
    assert!(!value.may_originate_mutations());
    assert!(value.may_access(&label("Personal")));
}

#[test]
fn registry_cardinality_does_not_confer_authority() {
    let first = registration();
    let mut second = first.clone();
    second.device_id = DeviceId::parse("other-registered-device").unwrap();
    second.compartment_access = set(&["Private"]);
    let one = DeviceRegistry::new(vec![first.clone()]).unwrap();
    let two = DeviceRegistry::new(vec![second.clone(), first.clone()]).unwrap();
    assert_eq!(one.len(), 1);
    assert_eq!(two.len(), 2);
    assert!(!one.is_empty());
    assert!(!two.is_empty());
    assert_eq!(one.get(&first.device_id), two.get(&first.device_id));
    let unknown = DeviceId::parse("unregistered-device").unwrap();
    for registry in [&one, &two] {
        assert_eq!(registry.get(&unknown), None);
        assert_eq!(registry.iter().len(), registry.len());
        for entry in registry.iter() {
            assert_eq!(registry.get(&entry.device_id), Some(entry));
        }
        let shared: Vec<_> = registry.iter().filter(|entry| entry.device_id == first.device_id).collect();
        assert_eq!(shared, vec![&first]);
        let entry = registry.get(&first.device_id).unwrap();
        for name in ["Personal", "Work", "Private", "Personal/Secret"] {
            let compartment = label(name);
            assert_eq!(entry.may_access(&compartment), first.compartment_access.contains(name));
        }
    }
    assert_eq!(one.get(&second.device_id), None);
    assert_eq!(two.get(&second.device_id), Some(&second));
    assert!(!one.get(&first.device_id).unwrap().may_access(&label("Private")));
    let forward = DeviceRegistry::new(vec![first, second]).unwrap();
    assert_eq!(forward.iter().collect::<Vec<_>>(), two.iter().collect::<Vec<_>>());
}

#[test]
fn empty_registry_has_no_implicit_device() {
    let registry = DeviceRegistry::new(vec![]).unwrap();
    assert!(registry.is_empty());
    assert_eq!(registry.len(), 0);
    assert_eq!(registry.iter().next(), None);
    assert_eq!(registry.get(&registration().device_id), None);
}

#[test]
fn registry_rejects_duplicate_ids() {
    let first = registration();
    for change_label in [false, true] {
        let mut duplicate = first.clone();
        if change_label {
            duplicate.label = "Different registration contents".into();
        }
        assert_eq!(
            DeviceRegistry::new(vec![first.clone(), duplicate]),
            Err(UbuError::DuplicateDeviceId { device_id: first.device_id.as_str().to_owned() })
        );
    }
}

#[test]
fn registry_rejects_invalid_registration() {
    let mut value = registration();
    value.label.clear();
    assert_eq!(DeviceRegistry::new(vec![value]), Err(UbuError::EmptyDeviceLabel));
}

#[test]
fn generated_device_ids_are_distinct_and_operator_ids_still_parse() {
    let mut ids = BTreeSet::new();
    for _ in 0..256 {
        let id = DeviceId::generate();
        let suffix = id.as_str().strip_prefix("dev_").unwrap();
        assert_eq!(suffix.len(), 32);
        let uuid = uuid::Uuid::parse_str(suffix).unwrap();
        assert_eq!(uuid.get_version_num(), 7);
        assert_eq!(uuid.simple().to_string(), suffix);
        assert_eq!(DeviceId::parse(id.as_str()).unwrap(), id);
        assert!(ids.insert(id.as_str().to_owned()));
    }
    let supplied = "operator-restored-registration";
    assert_eq!(DeviceId::parse(supplied).unwrap().as_str(), supplied);
}

#[test]
fn registration_sets_serialize_stably_in_sorted_order() {
    let expected = registration();
    let mut reversed = expected.clone();
    reversed.capability_profile = TextSet::new();
    reversed.compartment_access = TextSet::new();
    for capability in expected.capability_profile.items().iter().rev() {
        reversed.capability_profile.insert(capability);
    }
    for compartment in expected.compartment_access.items().iter().rev() {
        reversed.compartment_access.insert(compartment);
    }
    assert_eq!(reversed, expected);
    assert_eq!(expected.capability_profile.items(), ["admission", "local_advisory"]);
    assert_eq!(expected.compartment_access.items(), ["Personal", "Work"]);
}

#[test]
fn registration_deserialization_rejects_duplicate_set_entries() {
    for duplicate in ["admission", "Personal"] {
        let entries = vec![duplicate.to_string(), duplicate.to_string()];
        assert!(TextSet::from_unique(&entries).is_none());
        let mut s = TextSet::new();
        assert!(s.insert(duplicate));
        assert!(!s.insert(duplicate));
        assert_eq!(s.len(), 1);
    }
}

#[test]
fn registry_error_comes_from_first_offending_record() {
    let first = registration();
    let mut invalid = registration();
    invalid.device_id = DeviceId::parse("second").unwrap();
    invalid.label.clear();
    assert_eq!(
        DeviceRegistry::new(vec![first.clone(), invalid, first.clone()]),
        Err(UbuError::EmptyDeviceLabel)
    );
}

#[test]
fn registration_vocabularies_match_the_schema() {
    for (kind, spelling) in [
        (DeviceKind::OsUserProfile, "os_user_profile"),
        (DeviceKind::Container, "container"),
        (DeviceKind::VirtualMachine, "virtual_machine"),
        (DeviceKind::SecureEnclave, "secure_enclave"),
        (DeviceKind::BrowserProfile, "browser_profile"),
        (DeviceKind::BrowserSession, "browser_session"),
        (DeviceKind::WorkerProcess, "worker_process"),
        (DeviceKind::WorkerRuntime, "worker_runtime"),
    ] {
        assert_eq!(kind.wire(), spelling);
        assert_eq!(DeviceKind::from_wire(spelling).unwrap(), kind);
    }
    for (trust, spelling) in [
        (TrustState::Registered, "registered"),
        (TrustState::Revoked, "revoked"),
    ] {
        assert_eq!(trust.wire(), spelling);
        assert_eq!(TrustState::from_wire(spelling).unwrap(), trust);
    }
    assert_eq!(SyncState::LocalOnly.wire(), "local_only");
    assert!(DeviceKind::from_wire("external_calendar").is_none());
    assert!(TrustState::from_wire("trusted").is_none());
    assert!(SyncState::from_wire("synced").is_none());
}

fn with_id(id: &str) -> DeviceRegistration {
    let mut value = registration();
    value.device_id = DeviceId::parse(id).unwrap();
    value
}

#[test]
fn registry_lookup_and_order_do_not_depend_on_input_order() {
    let (a, b, c) = (with_id("a"), with_id("b"), with_id("c"));
    let forward = DeviceRegistry::new(vec![b.clone(), a.clone(), c.clone()]).unwrap();
    let backward = DeviceRegistry::new(vec![c, b, a]).unwrap();
    assert_eq!(forward, backward);
    let ids: Vec<&str> = forward.iter().map(|r| r.device_id.as_str()).collect();
    assert_eq!(ids, vec!["a", "b", "c"]);
    for record in forward.iter() {
        assert_eq!(forward.get(&record.device_id), Some(record));
    }
    assert_eq!(forward.get(&DeviceId::parse("d").unwrap()), None);
    assert_eq!(
        DeviceRegistry::new(vec![with_id("a"), with_id("b"), with_id("a")]).is_err(),
        DeviceRegistry::new(vec![with_id("a"), with_id("a"), with_id("b")]).is_err()
    );
}
