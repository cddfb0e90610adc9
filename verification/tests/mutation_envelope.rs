use std::collections::HashSet;

use ubu_core::{
    canonical_payload_bytes, AuthoritySource, CausalityIssuer, DeviceId, EnvelopeRequest,
    ExecutionContext, FixedClock, IdempotencyKey, JsonNumber, JsonValue, KeyedList, LocalIssuer,
    MutationEnvelope, ObjectType, UbuError, UbuId, UbuTimestamp, VersionRef,
};

fn ts(s: &str) -> UbuTimestamp {
    UbuTimestamp::parse(s).unwrap()
}

fn observed() -> KeyedList<VersionRef> {
    let mut versions = KeyedList::new();
    versions.insert("task_018f3c8e9b2a7c4d8f1e2a3b4c5d6e7f".to_owned(), VersionRef::Version(17));
    versions
}

fn envelope() -> MutationEnvelope {
    MutationEnvelope {
        idempotency_key: IdempotencyKey::parse("018f3c8e9b2a7c4d8f1e2a3b4c5d6e7f").unwrap(),
        observed_versions: observed(),
        origin_device_id: DeviceId::parse("local").unwrap(),
        actor_identity_id: UbuId::parse("identity_018f3c8e9b2a7c4d8f1e2a3b4c5d6e7f").unwrap(),
        authority_source: AuthoritySource::User,
        created_time: ts("2026-06-10T02:00:00Z"),
        effective_time: ts("2026-06-10T02:00:00Z"),
        recorded_time: ts("2026-06-10T02:00:00Z"),
        observed_policy_versions: None,
        execution_context: None,
    }
}

fn request() -> EnvelopeRequest {
    let envelope = envelope();
    let mut policy = KeyedList::new();
    policy.insert("routing:default".to_owned(), "v2".to_owned());
    EnvelopeRequest {
        observed_versions: envelope.observed_versions,
        actor_identity_id: envelope.actor_identity_id,
        authority_source: envelope.authority_source,
        effective_time: ts("2026-06-10T02:00:00Z"),
        observed_policy_versions: Some(policy),
        execution_context: Some(ExecutionContext {
            context_label: Some("advisory".into()),
            backend_id: None,
            provider_id: Some("local".into()),
        }),
    }
}

/// Reads a version reference the way its JSON form is read: only a JSON string
/// in the canonical grammar is accepted.
fn version_from_json(wire: &str) -> Result<VersionRef, UbuError> {
    match serde_json::from_str::<serde_json::Value>(wire) {
        Ok(serde_json::Value::String(s)) => VersionRef::parse_wire(&s),
        _ => Err(UbuError::InvalidVersionRef { value: wire.to_owned() }),
    }
}

fn text(s: &str) -> JsonValue {
    JsonValue::String(s.to_owned())
}

fn num(n: u64) -> JsonValue {
    JsonValue::Number(JsonNumber::PosInt(n))
}

fn object(members: Vec<(&str, JsonValue)>) -> JsonValue {
    JsonValue::Object(members.into_iter().map(|(k, v)| (k.to_owned(), v)).collect())
}

/// The library's form of a serde_json value.
fn from_serde(v: &serde_json::Value) -> JsonValue {
    match v {
        serde_json::Value::Null => JsonValue::Null,
        serde_json::Value::Bool(b) => JsonValue::Bool(*b),
        serde_json::Value::Number(n) => {
            if let Some(u) = n.as_u64() {
                JsonValue::Number(JsonNumber::PosInt(u))
            } else if let Some(i) = n.as_i64() {
                JsonValue::Number(JsonNumber::NegInt(i))
            } else {
                let f = n.as_f64().unwrap();
                JsonValue::Number(JsonNumber::Float { bits: f.to_bits(), text: n.to_string() })
            }
        }
        serde_json::Value::String(s) => JsonValue::String(s.clone()),
        serde_json::Value::Array(xs) => JsonValue::Array(xs.iter().map(from_serde).collect()),
        serde_json::Value::Object(m) => {
            JsonValue::Object(m.iter().map(|(k, v)| (k.clone(), from_serde(v))).collect())
        }
    }
}

#[test]
fn version_ref_round_trips_exact_strings() {
    for (wire, expected) in [
        ("\"v0\"", VersionRef::Version(0)),
        ("\"v17\"", VersionRef::Version(17)),
        ("\"absent\"", VersionRef::Absent),
        ("\"v18446744073709551615\"", VersionRef::Version(u64::MAX)),
    ] {
        let version = version_from_json(wire).unwrap();
        assert_eq!(version, expected);
        assert_eq!(serde_json::to_string(&version.to_wire()).unwrap(), wire);
    }
}

#[test]
fn version_ref_rejects_other_spellings_and_overflow() {
    for wire in [
        "17",
        "\"17\"",
        "\"v\"",
        "\"V17\"",
        "\"v-1\"",
        "\"deleted\"",
        "\"v+1\"",
        "\"v01\"",
        "\"v00\"",
        "\"v18446744073709551616\"",
        "\"v١\"",
        "\"v17\\n\"",
        "null",
        "{}",
    ] {
        assert!(version_from_json(wire).is_err(), "{wire}");
    }
}

#[test]
fn version_ref_rejects_leading_zeros_and_accepts_zero() {
    for value in ["v007", "v00", "v01"] {
        assert!(VersionRef::parse_wire(value).is_err());
    }
    assert_eq!(VersionRef::parse_wire("v0").unwrap(), VersionRef::Version(0));
}

#[test]
fn version_ref_rejects_canonical_value_beyond_u64_range() {
    let value = "v99999999999999999999";
    let error = VersionRef::parse_wire(value).unwrap_err();
    assert_eq!(
        error.message(),
        UbuError::InvalidVersionRef { value: value.to_owned() }.message()
    );
}

#[test]
fn validate_requires_identity_actor() {
    let mut value = envelope();
    value.actor_identity_id = UbuId::parse(&value.observed_versions.entries()[0].0).unwrap();
    assert!(matches!(value.validate(), Err(UbuError::WrongIdObjectType { .. })));
}

#[test]
fn validate_rejects_empty_device_and_key() {
    assert_eq!(DeviceId::parse(""), Err(UbuError::EmptyDeviceId));
    assert_eq!(IdempotencyKey::parse(""), Err(UbuError::EmptyIdempotencyKey));
    assert_eq!(DeviceId::parse(" ").unwrap().as_str(), " ");
    assert_eq!(IdempotencyKey::parse(" ").unwrap().as_str(), " ");
    envelope().validate().unwrap();
}

#[test]
fn invalid_observed_id_is_rejected_before_validate() {
    let mut value = envelope();
    value.observed_versions = KeyedList::new();
    value.observed_versions.insert("not-a-ubu-id".to_owned(), VersionRef::Version(17));
    assert_eq!(value.validate(), Err(UbuError::InvalidId { value: "not-a-ubu-id".to_owned() }));
    let mut value = envelope();
    value.observed_versions = KeyedList::new();
    value.validate().unwrap();
}

#[test]
fn policy_versions_are_required_only_when_requested() {
    let mut value = envelope();
    value.validate().unwrap();
    assert_eq!(value.require_policy_versions(), Err(UbuError::MissingObservedPolicyVersions));
    value.observed_policy_versions = Some(KeyedList::new());
    assert_eq!(value.require_policy_versions(), Err(UbuError::MissingObservedPolicyVersions));
    let mut policy = KeyedList::new();
    policy.insert("routing:default".to_owned(), "v2".to_owned());
    value.observed_policy_versions = Some(policy);
    value.require_policy_versions().unwrap();
}

#[test]
fn overnight_times_remain_independent_through_round_trip() {
    let mut value = envelope();
    value.recorded_time = ts("2026-06-10T09:00:00Z");
    value.validate().unwrap();
    assert_eq!(value.created_time.to_rfc3339().unwrap(), "2026-06-10T02:00:00Z");
    assert_eq!(value.effective_time.to_rfc3339().unwrap(), "2026-06-10T02:00:00Z");
    assert_eq!(value.recorded_time.to_rfc3339().unwrap(), "2026-06-10T09:00:00Z");
    assert!(value.created_time.is_before(&value.recorded_time));
}

#[test]
fn duplicate_key_is_scoped_to_device_and_idempotency_key() {
    let issuer = LocalIssuer::new(DeviceId::parse("local").unwrap());
    let first = (issuer.issue(request()).unwrap(), object(vec![("title", text("first"))]));
    let second = (issuer.issue(request()).unwrap(), object(vec![("title", text("second"))]));
    assert_ne!(canonical_payload_bytes(&first.1), canonical_payload_bytes(&second.1));
    assert_ne!(first.0.mutation_key(), second.0.mutation_key());
    let mut replay = second.0;
    replay.idempotency_key = first.0.idempotency_key.clone();
    assert_eq!(first.0.mutation_key(), replay.mutation_key());
    let keys = HashSet::from([first.0.mutation_key(), replay.mutation_key()]);
    assert_eq!(keys.len(), 1);
    replay.origin_device_id = DeviceId::parse("other").unwrap();
    assert_ne!(first.0.mutation_key(), replay.mutation_key());
}

#[test]
fn canonical_payload_sorts_recursively_and_preserves_values() {
    let first_text = r#"{"z":[{"b":2,"a":1}],"a":"line\n\""}"#;
    let first_serde: serde_json::Value = serde_json::from_str(first_text).unwrap();
    let first = object(vec![
        ("z", JsonValue::Array(vec![object(vec![("b", num(2)), ("a", num(1))])])),
        ("a", text("line\n\"")),
    ]);
    let reordered = object(vec![
        ("a", text("line\n\"")),
        ("z", JsonValue::Array(vec![object(vec![("a", num(1)), ("b", num(2))])])),
    ]);
    assert_eq!(canonical_payload_bytes(&first), canonical_payload_bytes(&reordered));
    assert_eq!(canonical_payload_bytes(&first), canonical_payload_bytes(&from_serde(&first_serde)));
    assert_eq!(
        serde_json::from_slice::<serde_json::Value>(&canonical_payload_bytes(&first)).unwrap(),
        first_serde
    );
    for replacement in [
        num(3),
        text("2"),
        JsonValue::Null,
        JsonValue::Bool(false),
        JsonValue::Array(vec![]),
        JsonValue::Object(vec![]),
    ] {
        let changed = object(vec![
            ("z", JsonValue::Array(vec![object(vec![("b", replacement), ("a", num(1))])])),
            ("a", text("line\n\"")),
        ]);
        assert_ne!(canonical_payload_bytes(&first), canonical_payload_bytes(&changed));
    }
    assert_ne!(
        canonical_payload_bytes(&JsonValue::Array(vec![num(1), num(2)])),
        canonical_payload_bytes(&JsonValue::Array(vec![num(2), num(1)]))
    );
}

#[test]
fn canonical_payload_bytes_are_compact_and_sorted() {
    let first_serde: serde_json::Value = serde_json::from_str(r#"{"z":[{"b":2,"a":1}],"a":"line\n\""}"#).unwrap();
    assert_eq!(
        canonical_payload_bytes(&from_serde(&first_serde)),
        br#"{"a":"line\n\"","z":[{"a":1,"b":2}]}"#.to_vec()
    );
    let mixed: serde_json::Value =
        serde_json::from_str(r#"{"é":-3,"b":[true,null,2.5,"tab\tand\u0001"],"a":{}}"#).unwrap();
    assert_eq!(
        String::from_utf8(canonical_payload_bytes(&from_serde(&mixed))).unwrap(),
        r#"{"a":{},"b":[true,null,2.5,"tab\tand\u0001"],"é":-3}"#
    );
}

#[test]
fn issuer_stamps_device_clock_and_unique_keys() {
    let now = ts("2026-06-10T09:00:00Z");
    let issuer = LocalIssuer::with_clock(DeviceId::parse("registered-device").unwrap(), FixedClock(now));
    let issuer: &dyn CausalityIssuer = &issuer;
    let mut keys = HashSet::new();
    for _ in 0..1024 {
        let expected = request();
        let value = issuer.issue(request()).unwrap();
        assert_eq!(value.origin_device_id.as_str(), "registered-device");
        assert_eq!(value.created_time, now);
        assert_eq!(value.recorded_time, now);
        assert_eq!(value.effective_time, expected.effective_time);
        assert_eq!(value.observed_versions, expected.observed_versions);
        assert_eq!(value.actor_identity_id, expected.actor_identity_id);
        assert_eq!(value.authority_source, expected.authority_source);
        assert_eq!(value.observed_policy_versions, expected.observed_policy_versions);
        assert_eq!(value.execution_context, expected.execution_context);
        assert!(keys.insert(value.idempotency_key.as_str().to_owned()));
    }
}

#[test]
fn recreated_issuer_does_not_repeat_keys_for_same_device() {
    let device_id = DeviceId::parse("local").unwrap();
    let now = ts("2026-06-10T09:00:00Z");
    let first = {
        let issuer = LocalIssuer::with_clock(device_id.clone(), FixedClock(now));
        issuer.issue(request()).unwrap()
    };
    let restarted = LocalIssuer::with_clock(device_id, FixedClock(now));
    let second = restarted.issue(request()).unwrap();
    assert_eq!(first.origin_device_id, second.origin_device_id);
    assert_eq!(first.created_time, second.created_time);
    assert_ne!(first.idempotency_key, second.idempotency_key);
    assert_ne!(first.mutation_key(), second.mutation_key());
}

#[test]
fn issuer_rejects_invalid_request() {
    let issuer = LocalIssuer::new(DeviceId::parse("local").unwrap());
    let mut request = request();
    request.actor_identity_id = UbuId::parse(&request.observed_versions.entries()[0].0).unwrap();
    assert!(matches!(issuer.issue(request), Err(UbuError::WrongIdObjectType { .. })));
}
