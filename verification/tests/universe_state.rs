use ubu_core::core_model::universe_state::{
    apply_universe_mutations, evaluate_universe_precondition, JsonScalar, UniverseMutation,
    UniverseMutationError, UniversePrecondition, UniversePreconditionError,
    UniversePreconditionLeaf, UniverseState,
};
use ubu_core::{JsonNumber, JsonValue, UbuTimestamp};

fn add(a: u64, b: u64) -> u64 {
    (f64::from_bits(a) + f64::from_bits(b)).to_bits()
}

fn state() -> UniverseState {
    UniverseState::new(
        UbuTimestamp::parse("2026-06-22T12:00:00Z").expect("valid timestamp"),
        "test fixture",
    )
}

fn text(s: &str) -> JsonValue {
    JsonValue::String(s.to_owned())
}

fn num(n: u64) -> JsonValue {
    JsonValue::Number(JsonNumber::PosInt(n))
}

fn float(x: f64, spelled: &str) -> JsonValue {
    JsonValue::Number(JsonNumber::Float { bits: x.to_bits(), text: spelled.to_owned() })
}

fn object(members: Vec<(&str, JsonValue)>) -> JsonValue {
    JsonValue::Object(members.into_iter().map(|(k, v)| (k.to_owned(), v)).collect())
}

fn mutation(operation: &str, target: &str, payload: Option<JsonValue>) -> UniverseMutation {
    UniverseMutation {
        operation: operation.to_owned(),
        target: target.to_owned(),
        payload,
        note: None,
    }
}

fn leaf(target: &str, predicate: &str, expected: Option<JsonValue>) -> UniversePrecondition {
    UniversePrecondition::Leaf(UniversePreconditionLeaf {
        target: target.to_owned(),
        predicate: predicate.to_owned(),
        expected,
    })
}

fn numeric(state: &UniverseState, key: &str) -> Option<f64> {
    state.numeric_values.get(key).map(|bits| f64::from_bits(*bits))
}

#[test]
fn set_fact_sets_any_json_value() {
    let next = apply_universe_mutations(
        &state(),
        &[mutation("set_fact", "facts.ticket.status", Some(object(vec![("state", text("ready"))])))],
        add,
    )
    .expect("valid mutation");

    assert_eq!(next.facts.get("ticket.status"), Some(&object(vec![("state", text("ready"))])));
}

#[test]
fn clear_fact_removes_existing_fact() {
    let initial = apply_universe_mutations(
        &state(),
        &[mutation("set_fact", "facts.ticket.status", Some(text("ready")))],
        add,
    )
    .expect("valid mutation");

    let next = apply_universe_mutations(&initial, &[mutation("clear_fact", "facts.ticket.status", None)], add)
        .expect("valid mutation");

    assert!(!next.facts.contains_key("ticket.status"));
}

#[test]
fn increment_numeric_initializes_missing_key_from_zero() {
    let next = apply_universe_mutations(
        &state(),
        &[mutation("increment_numeric", "numeric_values.energy", Some(float(2.5, "2.5")))],
        add,
    )
    .expect("valid mutation");

    assert_eq!(numeric(&next, "energy"), Some(2.5));
}

#[test]
fn decrement_numeric_initializes_missing_key_from_zero() {
    let next = apply_universe_mutations(
        &state(),
        &[mutation("decrement_numeric", "numeric_values.energy", Some(float(2.5, "2.5")))],
        add,
    )
    .expect("valid mutation");

    assert_eq!(numeric(&next, "energy"), Some(-2.5));
}

#[test]
fn add_membership_adds_scalar_member() {
    let next = apply_universe_mutations(
        &state(),
        &[mutation("add_membership", "set_memberships.tags", Some(text("focused")))],
        add,
    )
    .expect("valid mutation");

    assert!(next
        .set_memberships
        .get("tags")
        .expect("set exists")
        .contains(&JsonScalar::String("focused".to_owned())));
}

#[test]
fn remove_membership_removes_scalar_member() {
    let initial = apply_universe_mutations(
        &state(),
        &[mutation("add_membership", "set_memberships.tags", Some(text("focused")))],
        add,
    )
    .expect("valid mutation");

    let next = apply_universe_mutations(
        &initial,
        &[mutation("remove_membership", "set_memberships.tags", Some(text("focused")))],
        add,
    )
    .expect("valid mutation");

    assert!(!next.set_memberships.contains_key("tags"));
}

#[test]
fn append_event_marker_appends_to_empty_list() {
    let marker = object(vec![("task_id", text("task_1")), ("source", text("test"))]);
    let next = apply_universe_mutations(
        &state(),
        &[mutation("append_event_marker", "event_markers.task.completed", Some(marker.clone()))],
        add,
    )
    .expect("valid mutation");

    assert_eq!(
        next.event_markers
            .get("task.completed")
            .and_then(|markers| markers.markers().first())
            .cloned()
            .map(JsonValue::Object),
        Some(marker)
    );
}

#[test]
fn invalid_item_rejects_whole_list_without_partial_apply() {
    let initial = state();
    let result = apply_universe_mutations(
        &initial,
        &[
            mutation("set_fact", "facts.ticket.status", Some(text("ready"))),
            mutation("increment_numeric", "facts.energy", Some(num(1))),
        ],
        add,
    );

    assert!(result.is_err());
    assert!(initial.facts.is_empty());
}

#[test]
fn mutations_apply_in_list_order() {
    let next = apply_universe_mutations(
        &state(),
        &[
            mutation("increment_numeric", "numeric_values.energy", Some(num(5))),
            mutation("decrement_numeric", "numeric_values.energy", Some(num(2))),
            mutation("set_fact", "facts.ticket.status", Some(text("ready"))),
            mutation("set_fact", "facts.ticket.status", Some(text("done"))),
        ],
        add,
    )
    .expect("valid mutations");

    assert_eq!(numeric(&next, "energy"), Some(3.0));
    assert_eq!(next.facts.get("ticket.status"), Some(&text("done")));
}

#[test]
fn equals_predicate_uses_json_compatible_equality() {
    let next = apply_universe_mutations(
        &state(),
        &[
            mutation("set_fact", "facts.ticket.status", Some(text("ready"))),
            mutation("increment_numeric", "numeric_values.energy", Some(num(2))),
        ],
        add,
    )
    .expect("valid mutations");

    assert_eq!(
        evaluate_universe_precondition(&next, &leaf("facts.ticket.status", "equals", Some(text("ready")))),
        Ok(true)
    );
    assert_eq!(
        evaluate_universe_precondition(&next, &leaf("numeric_values.energy", "equals", Some(float(2.0, "2.0")))),
        Ok(true)
    );
}

#[test]
fn member_of_predicate_checks_set_membership() {
    let next = apply_universe_mutations(
        &state(),
        &[mutation("add_membership", "set_memberships.tags", Some(text("focused")))],
        add,
    )
    .expect("valid mutation");

    assert_eq!(
        evaluate_universe_precondition(&next, &leaf("set_memberships.tags", "member_of", Some(text("focused")))),
        Ok(true)
    );
    assert_eq!(
        evaluate_universe_precondition(&next, &leaf("set_memberships.tags", "member_of", Some(text("blocked")))),
        Ok(false)
    );
}

#[test]
fn absent_predicate_is_true_for_missing_or_cleared_targets() {
    let initial = apply_universe_mutations(
        &state(),
        &[mutation("set_fact", "facts.ticket.status", Some(text("ready")))],
        add,
    )
    .expect("valid mutation");
    let next = apply_universe_mutations(&initial, &[mutation("clear_fact", "facts.ticket.status", None)], add)
        .expect("valid mutation");

    assert_eq!(evaluate_universe_precondition(&next, &leaf("facts.ticket.status", "absent", None)), Ok(true));
    assert_eq!(evaluate_universe_precondition(&next, &leaf("facts.ticket.owner", "absent", None)), Ok(true));
}

#[test]
fn all_of_and_any_of_compose_recursively() {
    let next = apply_universe_mutations(
        &state(),
        &[
            mutation("set_fact", "facts.ticket.status", Some(text("ready"))),
            mutation("add_membership", "set_memberships.tags", Some(text("focused"))),
        ],
        add,
    )
    .expect("valid mutations");

    let precondition = UniversePrecondition::AllOf {
        all_of: vec![
            leaf("facts.ticket.status", "equals", Some(text("ready"))),
            UniversePrecondition::AnyOf {
                any_of: vec![
                    leaf("set_memberships.tags", "member_of", Some(text("blocked"))),
                    leaf("set_memberships.tags", "member_of", Some(text("focused"))),
                ],
            },
        ],
    };

    assert_eq!(evaluate_universe_precondition(&next, &precondition), Ok(true));
}

#[test]
fn unknown_or_partially_modeled_target_is_absent() {
    let next = apply_universe_mutations(&state(), &[mutation("set_fact", "facts.ticket", Some(text("modeled")))], add)
        .expect("valid mutation");

    assert_eq!(evaluate_universe_precondition(&next, &leaf("facts.ticket.status", "absent", None)), Ok(true));
    assert_eq!(
        evaluate_universe_precondition(&next, &leaf("facts.ticket.status", "equals", Some(text("ready")))),
        Ok(false)
    );
}

#[test]
fn numeric_targets_support_only_equality_and_absence() {
    let next = apply_universe_mutations(
        &state(),
        &[mutation("increment_numeric", "numeric_values.energy", Some(num(1)))],
        add,
    )
    .expect("valid mutation");

    assert_eq!(
        evaluate_universe_precondition(&next, &leaf("numeric_values.energy", "equals", Some(float(1.0, "1.0")))),
        Ok(true)
    );
    assert_eq!(evaluate_universe_precondition(&next, &leaf("numeric_values.missing", "absent", None)), Ok(true));
    assert!(evaluate_universe_precondition(
        &next,
        &leaf("numeric_values.energy", "member_of", Some(float(1.0, "1.0")))
    )
    .is_err());
}

#[test]
fn malformed_precondition_is_error_not_false() {
    assert!(evaluate_universe_precondition(&state(), &leaf("facts..status", "equals", Some(text("ready")))).is_err());
    assert!(evaluate_universe_precondition(&state(), &leaf("facts.status", "greater_than", Some(num(1)))).is_err());
    assert!(evaluate_universe_precondition(&state(), &leaf("facts.status", "equals", None)).is_err());
}

#[test]
fn mutation_validation_rejects_wrong_payload_types() {
    assert!(apply_universe_mutations(
        &state(),
        &[mutation(
            "add_membership",
            "set_memberships.tags",
            Some(JsonValue::Array(vec![text("not"), text("scalar")]))
        )],
        add
    )
    .is_err());
    assert!(apply_universe_mutations(
        &state(),
        &[mutation("append_event_marker", "event_markers.audit", Some(text("not object")))],
        add
    )
    .is_err());
    assert!(apply_universe_mutations(&state(), &[mutation("set_fact", "facts.status", None)], add).is_err());
}

#[test]
fn first_invalid_item_names_its_index_and_rule() {
    let result = apply_universe_mutations(
        &state(),
        &[
            mutation("set_fact", "facts.a", Some(text("x"))),
            mutation("clear_fact", "facts.b", Some(text("x"))),
            mutation("launch", "facts.c", None),
        ],
        add,
    );
    assert_eq!(
        result.err(),
        Some(UniverseMutationError::InvalidItem {
            index: 1,
            message: "clear_fact does not accept a payload".to_owned(),
        })
    );
    let unknown = apply_universe_mutations(&state(), &[mutation("launch", "facts.c", None)], add);
    assert_eq!(
        unknown.err(),
        Some(UniverseMutationError::InvalidItem { index: 0, message: "unknown operation `launch`".to_owned() })
    );
    let wrong = apply_universe_mutations(&state(), &[mutation("set_fact", "numeric_values.c", Some(num(1)))], add);
    assert_eq!(
        wrong.err(),
        Some(UniverseMutationError::InvalidItem {
            index: 0,
            message: "operation target must be in the facts collection".to_owned(),
        })
    );
    let target = apply_universe_mutations(&state(), &[mutation("set_fact", "facts.", Some(num(1)))], add);
    assert_eq!(
        target.err(),
        Some(UniverseMutationError::InvalidItem { index: 0, message: "malformed target `facts.`".to_owned() })
    );
}

#[test]
fn precondition_errors_carry_their_messages() {
    assert_eq!(
        evaluate_universe_precondition(&state(), &leaf("facts.status", "equals", None)),
        Err(UniversePreconditionError::Malformed("equals requires expected".to_owned()))
    );
    assert_eq!(
        evaluate_universe_precondition(&state(), &leaf("facts.status", "member_of", Some(text("x")))),
        Err(UniversePreconditionError::Malformed("member_of requires a set_memberships target".to_owned()))
    );
    assert_eq!(
        evaluate_universe_precondition(&state(), &leaf("set_memberships.s", "member_of", Some(JsonValue::Array(vec![])))),
        Err(UniversePreconditionError::Malformed("member_of expected value must be a JSON scalar".to_owned()))
    );
    assert_eq!(
        evaluate_universe_precondition(&state(), &leaf("facts.status", "greater_than", None)),
        Err(UniversePreconditionError::Malformed("unknown predicate `greater_than`".to_owned()))
    );
    let any_error_first = UniversePrecondition::AnyOf {
        any_of: vec![leaf("bogus", "absent", None), leaf("facts.x", "absent", None)],
    };
    assert_eq!(
        evaluate_universe_precondition(&state(), &any_error_first),
        Err(UniversePreconditionError::Malformed("malformed target `bogus`".to_owned()))
    );
}

#[test]
fn set_membership_equals_compares_sorted_members() {
    let next = apply_universe_mutations(
        &state(),
        &[
            mutation("add_membership", "set_memberships.s", Some(text("b"))),
            mutation("add_membership", "set_memberships.s", Some(num(7))),
            mutation("add_membership", "set_memberships.s", Some(text("a"))),
            mutation("add_membership", "set_memberships.s", Some(JsonValue::Null)),
            mutation("add_membership", "set_memberships.s", Some(text("a"))),
        ],
        add,
    )
    .expect("valid mutations");
    let expected = JsonValue::Array(vec![JsonValue::Null, num(7), text("a"), text("b")]);
    assert_eq!(evaluate_universe_precondition(&next, &leaf("set_memberships.s", "equals", Some(expected))), Ok(true));
    assert_eq!(next.set_memberships.get("s").map(|s| s.len()), Some(4));
}

#[test]
fn object_facts_compare_as_maps() {
    let next = apply_universe_mutations(
        &state(),
        &[mutation("set_fact", "facts.o", Some(object(vec![("a", num(1)), ("b", num(2))])))],
        add,
    )
    .expect("valid mutation");
    let reordered = object(vec![("b", num(2)), ("a", num(1))]);
    assert_eq!(evaluate_universe_precondition(&next, &leaf("facts.o", "equals", Some(reordered))), Ok(true));
    let float_one = object(vec![("a", float(1.0, "1.0")), ("b", num(2))]);
    assert_eq!(evaluate_universe_precondition(&next, &leaf("facts.o", "equals", Some(float_one))), Ok(false));
}

fn first_list() -> Vec<UniverseMutation> {
    vec![
        mutation("set_fact", "facts.ticket.status", Some(text("ready"))),
        mutation("increment_numeric", "numeric_values.energy", Some(float(1.5, "1.5"))),
        mutation("add_membership", "set_memberships.tags", Some(text("focused"))),
    ]
}

fn second_list() -> Vec<UniverseMutation> {
    vec![
        mutation("increment_numeric", "numeric_values.energy", Some(float(2.0, "2.0"))),
        mutation("clear_fact", "facts.ticket.status", None),
        mutation("add_membership", "set_memberships.tags", Some(text("calm"))),
        mutation("append_event_marker", "event_markers.task.completed", Some(object(vec![("n", num(2))]))),
    ]
}

#[test]
fn two_lists_in_turn_apply_as_one_list() {
    let start = state();
    let middle = apply_universe_mutations(&start, &first_list(), add).expect("valid first list");
    let end = apply_universe_mutations(&middle, &second_list(), add).expect("valid second list");
    let mut both = first_list();
    both.extend(second_list());
    let once = apply_universe_mutations(&start, &both, add).expect("valid joined list");

    assert_eq!(end.facts, once.facts);
    assert_eq!(end.numeric_values, once.numeric_values);
    assert_eq!(format!("{:?}", end.set_memberships), format!("{:?}", once.set_memberships));
    assert_eq!(format!("{:?}", end.event_markers), format!("{:?}", once.event_markers));
    assert_eq!(numeric(&once, "energy"), Some(3.5));
    assert!(once.facts.get("ticket.status").is_none());
    assert_eq!(once.set_memberships.get("tags").map(|set| set.members().len()), Some(2));
}
