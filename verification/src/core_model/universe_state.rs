//! The universe state: facts, numeric values, set memberships and event markers,
//! with the mutations and preconditions that Tasks declare over it.
use vstd::prelude::*;
use vstd::string::StrSliceExecFns;

use crate::core_model::scalar_set::{
    json_scalar, scalar_json, scalars_contain, scalars_view, sorted_insert, sorted_remove,
    ScalarData,
};
use crate::float_bits::{f64_bits_eq, f64_bits_equal, is_infinite_bits, is_nan_bits};
use crate::id_registry::ObjectType;
use crate::ids::{id_object_type, UbuId};
use crate::json::{
    duplicate_members, is_scalar, json_eq, json_equal, json_view, lemma_members_view, lemma_values_view,
    members_view, number_f64_bits, values_view, JsonData, JsonNumber, JsonValue,
};
use crate::json_text::{json_wf, lemma_json_eq_reflexive};
use crate::keyed::{DeepCopy, KeyedList};
use crate::text::{char_index_from, find_char, join, lemma_char_index_from, str_eq};
use crate::time::UbuTimestamp;

pub use crate::core_model::scalar_set::{JsonScalar, JsonScalarError, ScalarSet};

verus! {

/// One declared change to the universe state.
#[derive(Debug, PartialEq)]
pub struct UniverseMutation {
    pub operation: String,
    pub target: String,
    pub payload: Option<JsonValue>,
    pub note: Option<String>,
}

/// The parts of a mutation that decide what it does.
pub struct MutationData {
    pub operation: Seq<char>,
    pub target: Seq<char>,
    pub payload: Option<JsonData>,
}

impl View for UniverseMutation {
    type V = MutationData;

    open spec fn view(&self) -> MutationData {
        MutationData {
            operation: self.operation@,
            target: self.target@,
            payload: match self.payload {
                Some(v) => Some(v@),
                None => None,
            },
        }
    }
}

/// A condition over the universe state: all of, any of, or one leaf test.
#[derive(Debug, PartialEq)]
pub enum UniversePrecondition {
    AllOf { all_of: Vec<UniversePrecondition> },
    AnyOf { any_of: Vec<UniversePrecondition> },
    Leaf(UniversePreconditionLeaf),
}

/// One test of a target against a predicate.
#[derive(Debug, PartialEq)]
pub struct UniversePreconditionLeaf {
    pub target: String,
    pub predicate: String,
    pub expected: Option<JsonValue>,
}

/// The mathematical form of a precondition.
pub enum PreconditionData {
    AllOf(Seq<PreconditionData>),
    AnyOf(Seq<PreconditionData>),
    Leaf { target: Seq<char>, predicate: Seq<char>, expected: Option<JsonData> },
}

/// The views of a list of preconditions.
pub open spec fn preconditions_view(s: Seq<UniversePrecondition>) -> Seq<PreconditionData>
    decreases s, 0nat,
{
    if s.len() == 0 {
        Seq::empty()
    } else {
        preconditions_view(s.drop_last()).push(precondition_view(s.last()))
    }
}

/// The view of a precondition.
pub open spec fn precondition_view(p: UniversePrecondition) -> PreconditionData
    decreases p, 1nat,
{
    match p {
        UniversePrecondition::AllOf { all_of } => PreconditionData::AllOf(preconditions_view(all_of@)),
        UniversePrecondition::AnyOf { any_of } => PreconditionData::AnyOf(preconditions_view(any_of@)),
        UniversePrecondition::Leaf(leaf) => PreconditionData::Leaf {
            target: leaf.target@,
            predicate: leaf.predicate@,
            expected: match leaf.expected {
                Some(v) => Some(v@),
                None => None,
            },
        },
    }
}

impl View for UniversePrecondition {
    type V = PreconditionData;

    open spec fn view(&self) -> PreconditionData {
        precondition_view(*self)
    }
}

pub proof fn lemma_preconditions_view(s: Seq<UniversePrecondition>)
    ensures
        preconditions_view(s).len() == s.len(),
        forall|i: int| 0 <= i < s.len() ==> #[trigger] preconditions_view(s)[i] == precondition_view(s[i]),
    decreases s.len(),
{
    if s.len() > 0 {
        lemma_preconditions_view(s.drop_last());
    }
}

/// A mutation list was refused: the first invalid item and why.
#[derive(Debug, Clone, PartialEq, Eq)]
pub enum UniverseMutationError {
    InvalidItem { index: usize, message: String },
}

/// A precondition could not be evaluated.
#[derive(Debug, Clone, PartialEq, Eq)]
pub enum UniversePreconditionError {
    Malformed(String),
}

/// The four collections of the universe state.
#[derive(Debug, Clone, Copy, PartialEq, Eq, Structural)]
pub enum TargetCollection {
    Facts,
    NumericValues,
    SetMemberships,
    EventMarkers,
}

/// The name of a collection, as a target spells it.
pub open spec fn collection_name(c: TargetCollection) -> Seq<char> {
    match c {
        TargetCollection::Facts => "facts"@,
        TargetCollection::NumericValues => "numeric_values"@,
        TargetCollection::SetMemberships => "set_memberships"@,
        TargetCollection::EventMarkers => "event_markers"@,
    }
}

/// The collection a name spells, if any.
pub open spec fn collection_named(s: Seq<char>) -> Option<TargetCollection> {
    if s == "facts"@ {
        Some(TargetCollection::Facts)
    } else if s == "numeric_values"@ {
        Some(TargetCollection::NumericValues)
    } else if s == "set_memberships"@ {
        Some(TargetCollection::SetMemberships)
    } else if s == "event_markers"@ {
        Some(TargetCollection::EventMarkers)
    } else {
        None
    }
}

/// A key is non-empty and none of its dot-separated segments is empty.
pub open spec fn key_well_formed(k: Seq<char>) -> bool {
    &&& k.len() > 0
    &&& k[0] != '.'
    &&& k[k.len() - 1] != '.'
    &&& forall|j: int| 0 <= j < k.len() - 1 ==> !(#[trigger] k[j] == '.' && k[j + 1] == '.')
}

/// A target `collection.key`: the collection before the first dot, the key after it.
pub open spec fn target_parse(t: Seq<char>) -> Option<(TargetCollection, Seq<char>)> {
    match char_index_from(t, '.', 0) {
        None => None,
        Some(i) => {
            let k = t.subrange(i + 1, t.len() as int);
            match collection_named(t.subrange(0, i)) {
                Some(c) => if key_well_formed(k) {
                    Some((c, k))
                } else {
                    None
                },
                None => None,
            }
        },
    }
}

/// The message for a target that does not parse.
pub open spec fn malformed_target(t: Seq<char>) -> Seq<char> {
    "malformed target `"@ + t + "`"@
}

/// The message for a mutation aimed at the wrong collection.
pub open spec fn wrong_collection(c: TargetCollection) -> Seq<char> {
    "operation target must be in the "@ + collection_name(c) + " collection"@
}

/// The message for an operation that is not one of the seven.
pub open spec fn unknown_operation(op: Seq<char>) -> Seq<char> {
    "unknown operation `"@ + op + "`"@
}

/// The message for a predicate that is not one of the three.
pub open spec fn unknown_predicate(p: Seq<char>) -> Seq<char> {
    "unknown predicate `"@ + p + "`"@
}

/// A checked mutation, ready to apply. Numeric deltas are binary64 patterns.
pub enum ValidData {
    SetFact { key: Seq<char>, value: JsonData },
    ClearFact { key: Seq<char> },
    IncrementNumeric { key: Seq<char>, delta: u64 },
    DecrementNumeric { key: Seq<char>, delta: u64 },
    AddMembership { key: Seq<char>, member: ScalarData },
    RemoveMembership { key: Seq<char>, member: ScalarData },
    AppendEventMarker { key: Seq<char>, marker: Seq<(Seq<char>, JsonData)> },
}

/// What a mutation means, or the message of the rule it breaks.
pub open spec fn mutation_meaning(m: MutationData) -> Result<ValidData, Seq<char>> {
    match target_parse(m.target) {
        None => Err(malformed_target(m.target)),
        Some((c, key)) => {
            let op = m.operation;
            if op == "set_fact"@ {
                if c != TargetCollection::Facts {
                    Err(wrong_collection(TargetCollection::Facts))
                } else {
                    match m.payload {
                        None => Err("operation requires a payload"@),
                        Some(v) => Ok(ValidData::SetFact { key, value: v }),
                    }
                }
            } else if op == "clear_fact"@ {
                if c != TargetCollection::Facts {
                    Err(wrong_collection(TargetCollection::Facts))
                } else if m.payload is Some {
                    Err("clear_fact does not accept a payload"@)
                } else {
                    Ok(ValidData::ClearFact { key })
                }
            } else if op == "increment_numeric"@ || op == "decrement_numeric"@ {
                if c != TargetCollection::NumericValues {
                    Err(wrong_collection(TargetCollection::NumericValues))
                } else {
                    match m.payload {
                        None => Err("operation requires a payload"@),
                        Some(JsonData::Number(n)) => {
                            let delta = number_f64_bits(n) as u64;
                            if op == "increment_numeric"@ {
                                Ok(ValidData::IncrementNumeric { key, delta })
                            } else {
                                Ok(ValidData::DecrementNumeric { key, delta })
                            }
                        },
                        Some(_) => Err("payload must be a JSON number"@),
                    }
                }
            } else if op == "add_membership"@ || op == "remove_membership"@ {
                if c != TargetCollection::SetMemberships {
                    Err(wrong_collection(TargetCollection::SetMemberships))
                } else {
                    match m.payload {
                        None => Err("operation requires a payload"@),
                        Some(v) => if !is_scalar(v) {
                            Err("payload must be a JSON scalar"@)
                        } else if op == "add_membership"@ {
                            Ok(ValidData::AddMembership { key, member: json_scalar(v) })
                        } else {
                            Ok(ValidData::RemoveMembership { key, member: json_scalar(v) })
                        },
                    }
                }
            } else if op == "append_event_marker"@ {
                if c != TargetCollection::EventMarkers {
                    Err(wrong_collection(TargetCollection::EventMarkers))
                } else {
                    match m.payload {
                        None => Err("operation requires a payload"@),
                        Some(JsonData::Object(ps)) => Ok(ValidData::AppendEventMarker { key, marker: ps }),
                        Some(_) => Err("append_event_marker payload must be a JSON object"@),
                    }
                }
            } else {
                Err(unknown_operation(op))
            }
        },
    }
}

/// A checked mutation.
enum ValidMutation {
    SetFact { key: String, value: JsonValue },
    ClearFact { key: String },
    IncrementNumeric { key: String, delta: u64 },
    DecrementNumeric { key: String, delta: u64 },
    AddMembership { key: String, member: JsonScalar },
    RemoveMembership { key: String, member: JsonScalar },
    AppendEventMarker { key: String, marker: Vec<(String, JsonValue)> },
}

impl View for ValidMutation {
    type V = ValidData;

    closed spec fn view(&self) -> ValidData {
        match self {
            ValidMutation::SetFact { key, value } => ValidData::SetFact { key: key@, value: value@ },
            ValidMutation::ClearFact { key } => ValidData::ClearFact { key: key@ },
            ValidMutation::IncrementNumeric { key, delta } => ValidData::IncrementNumeric { key: key@, delta: *delta },
            ValidMutation::DecrementNumeric { key, delta } => ValidData::DecrementNumeric { key: key@, delta: *delta },
            ValidMutation::AddMembership { key, member } => ValidData::AddMembership { key: key@, member: member@ },
            ValidMutation::RemoveMembership { key, member } => ValidData::RemoveMembership { key: key@, member: member@ },
            ValidMutation::AppendEventMarker { key, marker } => ValidData::AppendEventMarker {
                key: key@,
                marker: members_view(marker@),
            },
        }
    }
}

/// A parsed target.
struct ParsedTarget {
    collection: TargetCollection,
    key: String,
}

fn key_is_well_formed(k: &str) -> (r: bool)
    ensures
        r == key_well_formed(k@),
{
    let n = k.unicode_len();
    if n == 0 {
        return false;
    }
    if k.get_char(0) == '.' || k.get_char(n - 1) == '.' {
        return false;
    }
    let mut j: usize = 0;
    while j + 1 < n
        invariant
            n == k@.len(),
            n > 0,
            j <= n - 1,
            forall|i: int| 0 <= i < j ==> !(#[trigger] k@[i] == '.' && k@[i + 1] == '.'),
        decreases n - j,
    {
        if k.get_char(j) == '.' && k.get_char(j + 1) == '.' {
            return false;
        }
        j = j + 1;
    }
    true
}

fn collection_for(name: &str) -> (r: Option<TargetCollection>)
    ensures
        r == collection_named(name@),
{
    if str_eq(name, "facts") {
        Some(TargetCollection::Facts)
    } else if str_eq(name, "numeric_values") {
        Some(TargetCollection::NumericValues)
    } else if str_eq(name, "set_memberships") {
        Some(TargetCollection::SetMemberships)
    } else if str_eq(name, "event_markers") {
        Some(TargetCollection::EventMarkers)
    } else {
        None
    }
}

impl TargetCollection {
    /// The collection's name.
    pub fn as_str(self) -> (r: &'static str)
        ensures
            r@ == collection_name(self),
    {
        match self {
            TargetCollection::Facts => "facts",
            TargetCollection::NumericValues => "numeric_values",
            TargetCollection::SetMemberships => "set_memberships",
            TargetCollection::EventMarkers => "event_markers",
        }
    }
}

fn message_around(head: &str, middle: &str, tail: &str) -> (r: String)
    ensures
        r@ == head@ + middle@ + tail@,
{
    join(join(head.to_owned(), middle), tail)
}

fn parse_target(target: &str) -> (r: Result<ParsedTarget, String>)
    ensures
        match target_parse(target@) {
            Some((c, k)) => r matches Ok(p) && p.collection == c && p.key@ == k,
            None => r matches Err(m) && m@ == malformed_target(target@),
        },
{
    let n = target.unicode_len();
    match find_char(target, '.') {
        None => Err(message_around("malformed target `", target, "`")),
        Some(i) => {
            proof {
                lemma_char_index_from(target@, '.', 0);
            }
            let name = target.substring_char(0, i);
            let key = target.substring_char(i + 1, n);
            match collection_for(name) {
                Some(c) => {
                    if key_is_well_formed(key) {
                        Ok(ParsedTarget { collection: c, key: key.to_owned() })
                    } else {
                        Err(message_around("malformed target `", target, "`"))
                    }
                },
                None => Err(message_around("malformed target `", target, "`")),
            }
        },
    }
}

fn invalid_mutation(index: usize, message: String) -> (r: UniverseMutationError)
    ensures
        r matches UniverseMutationError::InvalidItem { index: i, message: m } && i == index && m@
            == message@,
{
    UniverseMutationError::InvalidItem { index, message }
}

fn require_collection(index: usize, actual: TargetCollection, expected: TargetCollection) -> (r: Result<(), UniverseMutationError>)
    ensures
        r is Ok <==> actual == expected,
        r matches Err(UniverseMutationError::InvalidItem { index: i, message: m }) ==> i == index && m@
            == wrong_collection(expected),
{
    if actual == expected {
        Ok(())
    } else {
        Err(invalid_mutation(index, message_around("operation target must be in the ", expected.as_str(), " collection")))
    }
}

fn literal_message(s: &str) -> (r: String)
    ensures
        r@ == s@,
{
    s.to_owned()
}

/// Check one mutation of a list, numbered `index`.
fn validate_mutation(index: usize, mutation: &UniverseMutation) -> (r: Result<ValidMutation, UniverseMutationError>)
    ensures
        match mutation_meaning(mutation@) {
            Ok(v) => r matches Ok(x) && x@ == v,
            Err(msg) => r matches Err(UniverseMutationError::InvalidItem { index: i, message: m }) && i == index
                && m@ == msg,
        },
{
    let target = match parse_target(mutation.target.as_str()) {
        Ok(t) => t,
        Err(message) => {
            return Err(invalid_mutation(index, message));
        },
    };
    let op = mutation.operation.as_str();
    if str_eq(op, "set_fact") {
        require_collection(index, target.collection, TargetCollection::Facts)?;
        match &mutation.payload {
            None => Err(invalid_mutation(index, literal_message("operation requires a payload"))),
            Some(v) => Ok(ValidMutation::SetFact { key: target.key, value: v.duplicate() }),
        }
    } else if str_eq(op, "clear_fact") {
        require_collection(index, target.collection, TargetCollection::Facts)?;
        if mutation.payload.is_some() {
            return Err(invalid_mutation(index, literal_message("clear_fact does not accept a payload")));
        }
        Ok(ValidMutation::ClearFact { key: target.key })
    } else if str_eq(op, "increment_numeric") || str_eq(op, "decrement_numeric") {
        require_collection(index, target.collection, TargetCollection::NumericValues)?;
        match &mutation.payload {
            None => Err(invalid_mutation(index, literal_message("operation requires a payload"))),
            Some(JsonValue::Number(n)) => {
                let delta = n.as_f64_bits();
                if str_eq(op, "increment_numeric") {
                    Ok(ValidMutation::IncrementNumeric { key: target.key, delta })
                } else {
                    Ok(ValidMutation::DecrementNumeric { key: target.key, delta })
                }
            },
            Some(_) => Err(invalid_mutation(index, literal_message("payload must be a JSON number"))),
        }
    } else if str_eq(op, "add_membership") || str_eq(op, "remove_membership") {
        require_collection(index, target.collection, TargetCollection::SetMemberships)?;
        match &mutation.payload {
            None => Err(invalid_mutation(index, literal_message("operation requires a payload"))),
            Some(v) => match JsonScalar::try_from(v) {
                Err(_) => Err(invalid_mutation(index, literal_message("payload must be a JSON scalar"))),
                Ok(member) => {
                    if str_eq(op, "add_membership") {
                        Ok(ValidMutation::AddMembership { key: target.key, member })
                    } else {
                        Ok(ValidMutation::RemoveMembership { key: target.key, member })
                    }
                },
            },
        }
    } else if str_eq(op, "append_event_marker") {
        require_collection(index, target.collection, TargetCollection::EventMarkers)?;
        match &mutation.payload {
            None => Err(invalid_mutation(index, literal_message("operation requires a payload"))),
            Some(JsonValue::Object(ps)) => Ok(
                ValidMutation::AppendEventMarker { key: target.key, marker: duplicate_members(ps) },
            ),
            Some(_) => Err(
                invalid_mutation(index, literal_message("append_event_marker payload must be a JSON object")),
            ),
        }
    } else {
        Err(invalid_mutation(index, message_around("unknown operation `", op, "`")))
    }
}

/// The event markers recorded under one key, oldest first; each is a JSON object.
#[derive(Debug)]
pub struct MarkerList {
    markers: Vec<Vec<(String, JsonValue)>>,
}

/// The views of a list of markers.
pub open spec fn markers_view(s: Seq<Vec<(String, JsonValue)>>) -> Seq<Seq<(Seq<char>, JsonData)>> {
    s.map_values(|m: Vec<(String, JsonValue)>| members_view(m@))
}

impl View for MarkerList {
    type V = Seq<Seq<(Seq<char>, JsonData)>>;

    closed spec fn view(&self) -> Seq<Seq<(Seq<char>, JsonData)>> {
        markers_view(self.markers@)
    }
}

impl MarkerList {
    pub fn new() -> (r: MarkerList)
        ensures
            r@ == Seq::<Seq<(Seq<char>, JsonData)>>::empty(),
    {
        let r = MarkerList { markers: Vec::new() };
        assert(r@ =~= Seq::<Seq<(Seq<char>, JsonData)>>::empty());
        r
    }

    /// Record one more marker after the others.
    pub fn push(&mut self, marker: Vec<(String, JsonValue)>)
        ensures
            final(self)@ == old(self)@.push(members_view(marker@)),
    {
        self.markers.push(marker);
        assert(self@ =~= old(self)@.push(members_view(marker@)));
    }

    /// The markers, oldest first.
    pub fn markers(&self) -> (r: &[Vec<(String, JsonValue)>])
        ensures
            markers_view(r@) == self@,
    {
        self.markers.as_slice()
    }

    pub fn len(&self) -> (r: usize)
        ensures
            r == self@.len(),
    {
        self.markers.len()
    }

    /// A copy holding markers of the same views.
    pub fn duplicate(&self) -> (r: MarkerList)
        ensures
            r@ == self@,
    {
        let mut out: Vec<Vec<(String, JsonValue)>> = Vec::new();
        let mut i: usize = 0;
        while i < self.markers.len()
            invariant
                i <= self.markers@.len(),
                out@.len() == i,
                forall|j: int| 0 <= j < i ==> members_view(#[trigger] out@[j]@) == members_view(self.markers@[j]@),
            decreases self.markers@.len() - i,
        {
            out.push(duplicate_members(&self.markers[i]));
            i = i + 1;
        }
        assert(markers_view(out@) =~= markers_view(self.markers@));
        MarkerList { markers: out }
    }
}

impl DeepCopy for MarkerList {
    fn deep_copy(&self) -> (r: MarkerList) {
        self.duplicate()
    }
}

/// A captured state of the universe the planner reasons over. Numeric values are
/// binary64 patterns; each set of memberships is kept in ascending order.
#[derive(Debug)]
pub struct UniverseState {
    pub id: UbuId,
    pub captured_at: UbuTimestamp,
    pub facts: KeyedList<JsonValue>,
    pub numeric_values: KeyedList<u64>,
    pub set_memberships: KeyedList<ScalarSet>,
    pub event_markers: KeyedList<MarkerList>,
    pub source_summary: String,
    pub confidence_summary: Option<String>,
}

/// The four collections of a universe state, as maps from key.
pub struct UniverseData {
    pub facts: Map<Seq<char>, JsonData>,
    pub numeric: Map<Seq<char>, u64>,
    pub memberships: Map<Seq<char>, Seq<ScalarData>>,
    pub markers: Map<Seq<char>, Seq<Seq<(Seq<char>, JsonData)>>>,
}

impl View for UniverseState {
    type V = UniverseData;

    open spec fn view(&self) -> UniverseData {
        UniverseData {
            facts: self.facts@.map_values(|v: JsonValue| v@),
            numeric: self.numeric_values@,
            memberships: self.set_memberships@.map_values(|m: ScalarSet| m@),
            markers: self.event_markers@.map_values(|m: MarkerList| m@),
        }
    }
}

/// The empty universe.
pub open spec fn empty_universe() -> UniverseData {
    UniverseData {
        facts: Map::empty(),
        numeric: Map::empty(),
        memberships: Map::empty(),
        markers: Map::empty(),
    }
}

/// The current numeric value under `key`, zero where there is none.
pub open spec fn numeric_current(d: UniverseData, key: Seq<char>) -> u64 {
    if d.numeric.contains_key(key) {
        d.numeric[key]
    } else {
        0
    }
}

/// The pattern of the negated binary64 value.
pub open spec fn negate_bits(b: u64) -> u64 {
    if b >= 0x8000_0000_0000_0000 {
        (b - 0x8000_0000_0000_0000) as u64
    } else {
        (b + 0x8000_0000_0000_0000) as u64
    }
}

/// A numeric mutation.
pub open spec fn is_numeric(m: ValidData) -> bool {
    m is IncrementNumeric || m is DecrementNumeric
}

/// The two binary64 operands whose sum a numeric mutation stores: the current
/// value (zero where missing) and the delta, negated for a decrement.
pub open spec fn numeric_operands(d: UniverseData, m: ValidData) -> (u64, u64) {
    match m {
        ValidData::IncrementNumeric { key, delta } => (numeric_current(d, key), delta),
        ValidData::DecrementNumeric { key, delta } => (numeric_current(d, key), negate_bits(delta)),
        _ => (0, 0),
    }
}

/// The members under `key`, none where there is no set.
pub open spec fn members_at(d: UniverseData, key: Seq<char>) -> Seq<ScalarData> {
    if d.memberships.contains_key(key) {
        d.memberships[key]
    } else {
        Seq::empty()
    }
}

/// The markers under `key`, none where there is no list.
pub open spec fn markers_at(d: UniverseData, key: Seq<char>) -> Seq<Seq<(Seq<char>, JsonData)>> {
    if d.markers.contains_key(key) {
        d.markers[key]
    } else {
        Seq::empty()
    }
}

/// The state after one checked mutation; `sum` is the value a numeric mutation
/// stores (the binary64 sum of its operands).
pub open spec fn apply_valid(d: UniverseData, m: ValidData, sum: u64) -> UniverseData {
    match m {
        ValidData::SetFact { key, value } => UniverseData { facts: d.facts.insert(key, value), ..d },
        ValidData::ClearFact { key } => UniverseData { facts: d.facts.remove(key), ..d },
        ValidData::IncrementNumeric { key, .. } => UniverseData { numeric: d.numeric.insert(key, sum), ..d },
        ValidData::DecrementNumeric { key, .. } => UniverseData { numeric: d.numeric.insert(key, sum), ..d },
        ValidData::AddMembership { key, member } => UniverseData {
            memberships: d.memberships.insert(key, sorted_insert(members_at(d, key), member)),
            ..d
        },
        ValidData::RemoveMembership { key, member } => if d.memberships.contains_key(key) {
            let rest = sorted_remove(d.memberships[key], member);
            if rest.len() == 0 {
                UniverseData { memberships: d.memberships.remove(key), ..d }
            } else {
                UniverseData { memberships: d.memberships.insert(key, rest), ..d }
            }
        } else {
            d
        },
        ValidData::AppendEventMarker { key, marker } => UniverseData {
            markers: d.markers.insert(key, markers_at(d, key).push(marker)),
            ..d
        },
    }
}

/// The state after the first `n` checked mutations, in list order.
pub open spec fn apply_prefix(d: UniverseData, ms: Seq<ValidData>, sums: Seq<u64>, n: nat) -> UniverseData
    decreases n,
{
    if n == 0 {
        d
    } else {
        apply_valid(apply_prefix(d, ms, sums, (n - 1) as nat), ms[n - 1], sums[n - 1])
    }
}

/// `sums[j]` is what `add` gave for the operands of the numeric mutation `j`,
/// taken in the state before it.
pub open spec fn sums_fit<A: Fn(u64, u64) -> u64>(add: A, d: UniverseData, ms: Seq<ValidData>, sums: Seq<u64>) -> bool {
    &&& sums.len() == ms.len()
    &&& forall|j: int|
        0 <= j < ms.len() && is_numeric(#[trigger] ms[j]) ==> call_ensures(
            add,
            numeric_operands(apply_prefix(d, ms, sums, j as nat), ms[j]),
            sums[j],
        )
}

/// The views of a list of mutations.
pub open spec fn mutations_view(ms: Seq<UniverseMutation>) -> Seq<MutationData> {
    ms.map_values(|m: UniverseMutation| m@)
}

/// Every mutation before position `n` is valid.
pub open spec fn valid_before(ms: Seq<MutationData>, n: int) -> bool {
    forall|j: int| 0 <= j < n ==> #[trigger] mutation_meaning(ms[j]) is Ok
}

/// The meanings of a list of valid mutations.
pub open spec fn meanings(ms: Seq<MutationData>) -> Seq<ValidData> {
    Seq::new(ms.len(), |i: int| mutation_meaning(ms[i])->Ok_0)
}

impl UniverseState {
    /// An empty universe state captured at `captured_at`, with a fresh identifier.
    pub fn new(captured_at: UbuTimestamp, source_summary: &str) -> (r: UniverseState)
        ensures
            r@ == empty_universe(),
            id_object_type(r.id@) == ObjectType::UniverseState,
            r.captured_at == captured_at,
            r.source_summary@ == source_summary@,
            r.confidence_summary is None,
    {
        let r = UniverseState {
            id: UbuId::new(ObjectType::UniverseState),
            captured_at,
            facts: KeyedList::new(),
            numeric_values: KeyedList::new(),
            set_memberships: KeyedList::new(),
            event_markers: KeyedList::new(),
            source_summary: source_summary.to_owned(),
            confidence_summary: None,
        };
        assert(r@.facts =~= Map::<Seq<char>, JsonData>::empty());
        assert(r@.memberships =~= Map::<Seq<char>, Seq<ScalarData>>::empty());
        assert(r@.markers =~= Map::<Seq<char>, Seq<Seq<(Seq<char>, JsonData)>>>::empty());
        r
    }

    /// A copy of this state.
    pub fn duplicate(&self) -> (r: UniverseState)
        ensures
            r@ == self@,
            r.id@ == self.id@,
            r.captured_at == self.captured_at,
            r.source_summary@ == self.source_summary@,
            r.confidence_summary.is_some() == self.confidence_summary.is_some(),
            r.confidence_summary matches Some(c) ==> c@ == self.confidence_summary->0@,
    {
        let facts = self.facts.deep_copy();
        let numeric_values = self.numeric_values.deep_copy();
        let set_memberships = self.set_memberships.deep_copy();
        let event_markers = self.event_markers.deep_copy();
        let confidence_summary = match &self.confidence_summary {
            Some(c) => Some(c.clone()),
            None => None,
        };
        let r = UniverseState {
            id: self.id.duplicate(),
            captured_at: self.captured_at,
            facts,
            numeric_values,
            set_memberships,
            event_markers,
            source_summary: self.source_summary.clone(),
            confidence_summary,
        };
        assert(r@.facts =~= self@.facts);
        assert(r@.numeric =~= self@.numeric);
        assert(r@.memberships =~= self@.memberships);
        assert(r@.markers =~= self@.markers);
        r
    }
}

fn negate_pattern(b: u64) -> (r: u64)
    ensures
        r == negate_bits(b),
{
    if b >= 0x8000_0000_0000_0000 {
        b - 0x8000_0000_0000_0000
    } else {
        b + 0x8000_0000_0000_0000
    }
}

/// Apply one checked mutation; a numeric one stores what `add` gives for its operands.
fn apply_valid_mutation<A: Fn(u64, u64) -> u64>(state: &mut UniverseState, mutation: ValidMutation, sum_of: &A) -> (sum: Ghost<u64>)
    requires
        forall|a: u64, b: u64| sum_of.requires((a, b)),
    ensures
        final(state)@ == apply_valid(old(state)@, mutation@, sum@),
        is_numeric(mutation@) ==> call_ensures(*sum_of, numeric_operands(old(state)@, mutation@), sum@),
        final(state).id == old(state).id,
        final(state).captured_at == old(state).captured_at,
        final(state).source_summary == old(state).source_summary,
        final(state).confidence_summary == old(state).confidence_summary,
{
    let ghost d = state@;
    let ghost m = mutation@;
    match mutation {
        ValidMutation::SetFact { key, value } => {
            state.facts.insert(key, value);
            assert(state@.facts =~= apply_valid(d, m, 0).facts);
            Ghost(0)
        },
        ValidMutation::ClearFact { key } => {
            let _ = state.facts.remove(key.as_str());
            assert(state@.facts =~= apply_valid(d, m, 0).facts);
            Ghost(0)
        },
        ValidMutation::IncrementNumeric { key, delta } => {
            let current: u64 = match state.numeric_values.get(key.as_str()) {
                Some(v) => *v,
                None => 0,
            };
            let next = sum_of(current, delta);
            state.numeric_values.insert(key, next);
            assert(state@.numeric =~= apply_valid(d, m, next).numeric);
            Ghost(next)
        },
        ValidMutation::DecrementNumeric { key, delta } => {
            let current: u64 = match state.numeric_values.get(key.as_str()) {
                Some(v) => *v,
                None => 0,
            };
            let next = sum_of(current, negate_pattern(delta));
            state.numeric_values.insert(key, next);
            assert(state@.numeric =~= apply_valid(d, m, next).numeric);
            Ghost(next)
        },
        ValidMutation::AddMembership { key, member } => {
            let mut set = match state.set_memberships.remove(key.as_str()) {
                Some(s) => s,
                None => ScalarSet::new(),
            };
            set.insert(member);
            state.set_memberships.insert(key, set);
            assert(state@.memberships =~= apply_valid(d, m, 0).memberships);
            Ghost(0)
        },
        ValidMutation::RemoveMembership { key, member } => {
            match state.set_memberships.remove(key.as_str()) {
                Some(mut set) => {
                    set.remove(&member);
                    if !set.is_empty() {
                        state.set_memberships.insert(key, set);
                    }
                },
                None => {},
            }
            assert(state@.memberships =~= apply_valid(d, m, 0).memberships);
            Ghost(0)
        },
        ValidMutation::AppendEventMarker { key, marker } => {
            let mut list = match state.event_markers.remove(key.as_str()) {
                Some(l) => l,
                None => MarkerList::new(),
            };
            list.push(marker);
            state.event_markers.insert(key, list);
            assert(state@.markers =~= apply_valid(d, m, 0).markers);
            Ghost(0)
        },
    }
}

proof fn lemma_apply_prefix_sums(d: UniverseData, ms: Seq<ValidData>, s1: Seq<u64>, s2: Seq<u64>, n: nat)
    requires
        forall|j: int| 0 <= j < n ==> s1[j] == s2[j],
    ensures
        apply_prefix(d, ms, s1, n) == apply_prefix(d, ms, s2, n),
    decreases n,
{
    if n > 0 {
        lemma_apply_prefix_sums(d, ms, s1, s2, (n - 1) as nat);
    }
}

/// Apply a list of mutations as one step: every item is checked first, and the
/// first invalid one refuses the whole list with the state untouched; otherwise
/// the items apply in list order to a copy of `state`. A numeric item stores the
/// binary64 sum of the current value (zero where missing) and its delta (negated
/// for a decrement), as `sum_of` computes it on bit patterns.
pub fn apply_universe_mutations<A: Fn(u64, u64) -> u64>(
    state: &UniverseState,
    mutations: &[UniverseMutation],
    sum_of: A,
) -> (r: Result<UniverseState, UniverseMutationError>)
    requires
        forall|a: u64, b: u64| sum_of.requires((a, b)),
    ensures
        match r {
            Ok(next) => {
                &&& valid_before(mutations_view(mutations@), mutations@.len() as int)
                &&& next.id@ == state.id@
                &&& next.captured_at == state.captured_at
                &&& next.source_summary@ == state.source_summary@
                &&& next.confidence_summary.is_some() == state.confidence_summary.is_some()
                &&& (next.confidence_summary matches Some(c) ==> c@ == state.confidence_summary->0@)
                &&& exists|sums: Seq<u64>|
                    sums_fit(sum_of, state@, meanings(mutations_view(mutations@)), sums) && next@ == apply_prefix(
                        state@,
                        meanings(mutations_view(mutations@)),
                        sums,
                        mutations@.len() as nat,
                    )
            },
            Err(UniverseMutationError::InvalidItem { index, message }) => {
                &&& index < mutations@.len()
                &&& valid_before(mutations_view(mutations@), index as int)
                &&& mutation_meaning(mutations_view(mutations@)[index as int]) matches Err(m) && m == message@
            },
        },
{
    let ghost v = mutations_view(mutations@);
    let ghost ms = meanings(v);
    let n = mutations.len();
    let mut parsed: Vec<ValidMutation> = Vec::new();
    let mut i: usize = 0;
    while i < n
        invariant
            n == mutations@.len(),
            v == mutations_view(mutations@),
            ms == meanings(v),
            i <= n,
            parsed@.len() == i,
            valid_before(v, i as int),
            forall|j: int| 0 <= j < i ==> #[trigger] parsed@[j]@ == ms[j],
        decreases n - i,
    {
        assert(v[i as int] == mutations@[i as int]@);
        match validate_mutation(i, &mutations[i]) {
            Ok(m) => {
                parsed.push(m);
            },
            Err(e) => {
                return Err(e);
            },
        }
        i = i + 1;
    }
    let mut next = state.duplicate();
    let ghost mut sums: Seq<u64> = Seq::empty();
    let mut k: usize = 0;
    while k < n
        invariant
            n == mutations@.len(),
            ms == meanings(mutations_view(mutations@)),
            ms.len() == n,
            valid_before(mutations_view(mutations@), n as int),
            forall|a: u64, b: u64| sum_of.requires((a, b)),
            k <= n,
            parsed@.len() == n - k,
            forall|j: int| 0 <= j < n - k ==> #[trigger] parsed@[j]@ == ms[k + j],
            sums.len() == k,
            forall|j: int|
                0 <= j < k && is_numeric(#[trigger] ms[j]) ==> call_ensures(
                    sum_of,
                    numeric_operands(apply_prefix(state@, ms, sums, j as nat), ms[j]),
                    sums[j],
                ),
            next@ == apply_prefix(state@, ms, sums, k as nat),
            next.id@ == state.id@,
            next.captured_at == state.captured_at,
            next.source_summary@ == state.source_summary@,
            next.confidence_summary.is_some() == state.confidence_summary.is_some(),
            next.confidence_summary matches Some(c) ==> c@ == state.confidence_summary->0@,
        decreases n - k,
    {
        let ghost pending = parsed@;
        let m = parsed.remove(0);
        let ghost before = sums;
        let sum = apply_valid_mutation(&mut next, m, &sum_of);
        proof {
            sums = sums.push(sum@);
            lemma_apply_prefix_sums(state@, ms, before, sums, k as nat);
            assert forall|j: int|
                0 <= j < k + 1 && is_numeric(#[trigger] ms[j]) implies call_ensures(
                    sum_of,
                    numeric_operands(apply_prefix(state@, ms, sums, j as nat), ms[j]),
                    sums[j],
                ) by {
                lemma_apply_prefix_sums(state@, ms, before, sums, j as nat);
            }
            assert forall|j: int| 0 <= j < n - (k + 1) implies #[trigger] parsed@[j]@ == ms[k + 1 + j] by {
                assert(parsed@[j] == pending[j + 1]);
            }
        }
        k = k + 1;
    }
    assert(sums_fit(sum_of, state@, ms, sums));
    Ok(next)
}

/// A value is stored at the target. A numeric value that is NaN or infinite has no
/// JSON form and counts as absent.
pub open spec fn value_present(d: UniverseData, c: TargetCollection, k: Seq<char>) -> bool {
    match c {
        TargetCollection::Facts => d.facts.contains_key(k),
        TargetCollection::NumericValues => d.numeric.contains_key(k) && !is_nan_bits(d.numeric[k])
            && !is_infinite_bits(d.numeric[k]),
        TargetCollection::SetMemberships => d.memberships.contains_key(k),
        TargetCollection::EventMarkers => d.markers.contains_key(k),
    }
}

/// The members of a set as a JSON array, in ascending order.
pub open spec fn members_json(s: Seq<ScalarData>) -> JsonData {
    JsonData::Array(s.map_values(|x: ScalarData| scalar_json(x)))
}

/// Event markers as a JSON array of objects, oldest first.
pub open spec fn markers_json(s: Seq<Seq<(Seq<char>, JsonData)>>) -> JsonData {
    JsonData::Array(s.map_values(|m: Seq<(Seq<char>, JsonData)>| JsonData::Object(m)))
}

/// The value at the target equals `expected`. A numeric value compares as a
/// binary64 value with the expected number's `as_f64`.
pub open spec fn target_equals(d: UniverseData, c: TargetCollection, k: Seq<char>, expected: JsonData) -> bool {
    match c {
        TargetCollection::NumericValues => d.numeric.contains_key(k) && match expected {
            JsonData::Number(n) => f64_bits_eq(d.numeric[k], number_f64_bits(n) as u64),
            _ => false,
        },
        TargetCollection::Facts => d.facts.contains_key(k) && json_eq(d.facts[k], expected),
        TargetCollection::SetMemberships => d.memberships.contains_key(k) && json_eq(
            members_json(d.memberships[k]),
            expected,
        ),
        TargetCollection::EventMarkers => d.markers.contains_key(k) && json_eq(markers_json(d.markers[k]), expected),
    }
}

/// What a leaf test gives: its truth, or the message of the rule it breaks.
pub open spec fn leaf_outcome(d: UniverseData, t: Seq<char>, p: Seq<char>, e: Option<JsonData>) -> Result<bool, Seq<char>> {
    match target_parse(t) {
        None => Err(malformed_target(t)),
        Some((c, k)) => if p == "equals"@ {
            match e {
                None => Err("equals requires expected"@),
                Some(x) => Ok(target_equals(d, c, k, x)),
            }
        } else if p == "member_of"@ {
            if c != TargetCollection::SetMemberships {
                Err("member_of requires a set_memberships target"@)
            } else {
                match e {
                    None => Err("member_of requires expected"@),
                    Some(x) => if !is_scalar(x) {
                        Err("member_of expected value must be a JSON scalar"@)
                    } else {
                        Ok(d.memberships.contains_key(k) && scalars_contain(d.memberships[k], json_scalar(x)))
                    },
                }
            }
        } else if p == "absent"@ {
            Ok(!value_present(d, c, k))
        } else {
            Err(unknown_predicate(p))
        },
    }
}

/// What a precondition gives: `all_of` and `any_of` evaluate their children in
/// order and stop at the first that decides, or at the first error.
pub open spec fn precondition_outcome(d: UniverseData, p: PreconditionData) -> Result<bool, Seq<char>>
    decreases p, 0nat,
{
    match p {
        PreconditionData::AllOf(cs) => all_outcome_from(d, cs, 0),
        PreconditionData::AnyOf(cs) => any_outcome_from(d, cs, 0),
        PreconditionData::Leaf { target, predicate, expected } => leaf_outcome(d, target, predicate, expected),
    }
}

/// `all_of` over the children from position `i` on.
pub open spec fn all_outcome_from(d: UniverseData, cs: Seq<PreconditionData>, i: nat) -> Result<bool, Seq<char>>
    decreases cs, cs.len() - i,
{
    if i >= cs.len() {
        Ok(true)
    } else {
        match precondition_outcome(d, cs[i as int]) {
            Err(e) => Err(e),
            Ok(false) => Ok(false),
            Ok(true) => all_outcome_from(d, cs, i + 1),
        }
    }
}

/// `any_of` over the children from position `i` on.
pub open spec fn any_outcome_from(d: UniverseData, cs: Seq<PreconditionData>, i: nat) -> Result<bool, Seq<char>>
    decreases cs, cs.len() - i,
{
    if i >= cs.len() {
        Ok(false)
    } else {
        match precondition_outcome(d, cs[i as int]) {
            Err(e) => Err(e),
            Ok(true) => Ok(true),
            Ok(false) => any_outcome_from(d, cs, i + 1),
        }
    }
}

fn members_to_json(set: &ScalarSet) -> (r: JsonValue)
    ensures
        r@ == members_json(set@),
{
    let members = set.members();
    let mut out: Vec<JsonValue> = Vec::new();
    let mut i: usize = 0;
    while i < members.len()
        invariant
            scalars_view(members@) == set@,
            i <= members@.len(),
            out@.len() == i,
            forall|j: int| 0 <= j < i ==> #[trigger] out@[j]@ == scalar_json(members@[j]@),
        decreases members@.len() - i,
    {
        out.push(members[i].to_json());
        i = i + 1;
    }
    proof {
        lemma_values_view(out@);
        assert forall|j: int| 0 <= j < out@.len() implies #[trigger] values_view(out@)[j] == set@.map_values(
            |x: ScalarData| scalar_json(x),
        )[j] by {
            assert(set@[j] == members@[j]@);
            assert(values_view(out@)[j] == json_view(out@[j]));
            assert(out@[j]@ == scalar_json(members@[j]@));
            assert(set@.map_values(|x: ScalarData| scalar_json(x))[j] == scalar_json(set@[j]));
        }
        assert(values_view(out@) =~= set@.map_values(|x: ScalarData| scalar_json(x)));
    }
    JsonValue::Array(out)
}

fn markers_to_json(list: &MarkerList) -> (r: JsonValue)
    ensures
        r@ == markers_json(list@),
{
    let markers = list.markers();
    let mut out: Vec<JsonValue> = Vec::new();
    let mut i: usize = 0;
    while i < markers.len()
        invariant
            markers_view(markers@) == list@,
            i <= markers@.len(),
            out@.len() == i,
            forall|j: int| 0 <= j < i ==> #[trigger] out@[j]@ == JsonData::Object(members_view(markers@[j]@)),
        decreases markers@.len() - i,
    {
        out.push(JsonValue::Object(duplicate_members(&markers[i])));
        i = i + 1;
    }
    proof {
        lemma_values_view(out@);
        assert forall|j: int| 0 <= j < out@.len() implies #[trigger] values_view(out@)[j] == list@.map_values(
            |m: Seq<(Seq<char>, JsonData)>| JsonData::Object(m),
        )[j] by {
            assert(list@[j] == members_view(markers@[j]@));
            assert(values_view(out@)[j] == json_view(out@[j]));
            assert(out@[j]@ == JsonData::Object(members_view(markers@[j]@)));
            assert(list@.map_values(|m: Seq<(Seq<char>, JsonData)>| JsonData::Object(m))[j] == JsonData::Object(list@[j]));
        }
        assert(values_view(out@) =~= list@.map_values(|m: Seq<(Seq<char>, JsonData)>| JsonData::Object(m)));
    }
    JsonValue::Array(out)
}

fn value_is_present(state: &UniverseState, c: TargetCollection, key: &str) -> (r: bool)
    ensures
        r == value_present(state@, c, key@),
{
    match c {
        TargetCollection::Facts => state.facts.contains_key(key),
        TargetCollection::NumericValues => match state.numeric_values.get(key) {
            Some(v) => {
                let magnitude = *v % 0x8000_0000_0000_0000;
                magnitude < 0x7FF0_0000_0000_0000
            },
            None => false,
        },
        TargetCollection::SetMemberships => state.set_memberships.contains_key(key),
        TargetCollection::EventMarkers => state.event_markers.contains_key(key),
    }
}

fn target_equals_exec(state: &UniverseState, c: TargetCollection, key: &str, expected: &JsonValue) -> (r: bool)
    ensures
        r == target_equals(state@, c, key@, expected@),
{
    match c {
        TargetCollection::NumericValues => match state.numeric_values.get(key) {
            Some(actual) => match expected {
                JsonValue::Number(n) => f64_bits_equal(*actual, n.as_f64_bits()),
                _ => false,
            },
            None => false,
        },
        TargetCollection::Facts => match state.facts.get(key) {
            Some(actual) => json_equal(actual, expected),
            None => false,
        },
        TargetCollection::SetMemberships => match state.set_memberships.get(key) {
            Some(set) => {
                let actual = members_to_json(set);
                json_equal(&actual, expected)
            },
            None => false,
        },
        TargetCollection::EventMarkers => match state.event_markers.get(key) {
            Some(list) => {
                let actual = markers_to_json(list);
                json_equal(&actual, expected)
            },
            None => false,
        },
    }
}

fn malformed(message: &str) -> (r: UniversePreconditionError)
    ensures
        r matches UniversePreconditionError::Malformed(m) && m@ == message@,
{
    UniversePreconditionError::Malformed(message.to_owned())
}

/// Evaluate one leaf test against the state.
fn evaluate_leaf_precondition(state: &UniverseState, leaf: &UniversePreconditionLeaf) -> (r: Result<bool, UniversePreconditionError>)
    ensures
        match leaf_outcome(
            state@,
            leaf.target@,
            leaf.predicate@,
            match leaf.expected {
                Some(v) => Some(v@),
                None => None,
            },
        ) {
            Ok(b) => r == Ok::<bool, UniversePreconditionError>(b),
            Err(m) => r matches Err(UniversePreconditionError::Malformed(x)) && x@ == m,
        },
{
    let target = match parse_target(leaf.target.as_str()) {
        Ok(t) => t,
        Err(message) => {
            return Err(UniversePreconditionError::Malformed(message));
        },
    };
    let predicate = leaf.predicate.as_str();
    if str_eq(predicate, "equals") {
        match &leaf.expected {
            None => Err(malformed("equals requires expected")),
            Some(expected) => Ok(target_equals_exec(state, target.collection, target.key.as_str(), expected)),
        }
    } else if str_eq(predicate, "member_of") {
        if target.collection != TargetCollection::SetMemberships {
            return Err(malformed("member_of requires a set_memberships target"));
        }
        match &leaf.expected {
            None => Err(malformed("member_of requires expected")),
            Some(expected) => match JsonScalar::try_from(expected) {
                Err(_) => Err(malformed("member_of expected value must be a JSON scalar")),
                Ok(scalar) => match state.set_memberships.get(target.key.as_str()) {
                    Some(set) => Ok(set.contains(&scalar)),
                    None => Ok(false),
                },
            },
        }
    } else if str_eq(predicate, "absent") {
        Ok(!value_is_present(state, target.collection, target.key.as_str()))
    } else {
        Err(UniversePreconditionError::Malformed(message_around("unknown predicate `", predicate, "`")))
    }
}

/// Evaluate a precondition against the state: `Ok` with its truth, or the
/// reason it is malformed. A malformed leaf is an error, never `false`.
#[verifier::loop_isolation(false)]
pub fn evaluate_universe_precondition(state: &UniverseState, precondition: &UniversePrecondition) -> (r: Result<bool, UniversePreconditionError>)
    ensures
        match precondition_outcome(state@, precondition@) {
            Ok(b) => r == Ok::<bool, UniversePreconditionError>(b),
            Err(m) => r matches Err(UniversePreconditionError::Malformed(x)) && x@ == m,
        },
    decreases precondition,
{
    match precondition {
        UniversePrecondition::AllOf { all_of } => {
            proof {
                lemma_preconditions_view(all_of@);
            }
            let ghost cs = preconditions_view(all_of@);
            let mut i: usize = 0;
            while i < all_of.len()
                invariant
                    i <= all_of@.len(),
                    cs == preconditions_view(all_of@),
                    all_outcome_from(state@, cs, 0) == all_outcome_from(state@, cs, i as nat),
                decreases all_of@.len() - i,
            {
                proof {
                    vstd::std_specs::vec::axiom_vec_index_decreases(*all_of, i as int);
                }
                match evaluate_universe_precondition(state, &all_of[i]) {
                    Err(e) => {
                        return Err(e);
                    },
                    Ok(false) => {
                        return Ok(false);
                    },
                    Ok(true) => {},
                }
                i = i + 1;
            }
            Ok(true)
        },
        UniversePrecondition::AnyOf { any_of } => {
            proof {
                lemma_preconditions_view(any_of@);
            }
            let ghost cs = preconditions_view(any_of@);
            let mut i: usize = 0;
            while i < any_of.len()
                invariant
                    i <= any_of@.len(),
                    cs == preconditions_view(any_of@),
                    any_outcome_from(state@, cs, 0) == any_outcome_from(state@, cs, i as nat),
                decreases any_of@.len() - i,
            {
                proof {
                    vstd::std_specs::vec::axiom_vec_index_decreases(*any_of, i as int);
                }
                match evaluate_universe_precondition(state, &any_of[i]) {
                    Err(e) => {
                        return Err(e);
                    },
                    Ok(true) => {
                        return Ok(true);
                    },
                    Ok(false) => {},
                }
                i = i + 1;
            }
            Ok(false)
        },
        UniversePrecondition::Leaf(leaf) => evaluate_leaf_precondition(state, leaf),
    }
}

/// The target text `collection.key`.
pub open spec fn target_text(c: TargetCollection, key: Seq<char>) -> Seq<char> {
    collection_name(c) + seq!['.'] + key
}

/// Two lists of changes that agree on their first `n` items and sums lead to
/// the same state after `n` items.
proof fn lemma_apply_prefix_agree(
    d: UniverseData,
    ms1: Seq<ValidData>,
    s1: Seq<u64>,
    ms2: Seq<ValidData>,
    s2: Seq<u64>,
    n: nat,
)
    requires
        forall|j: int| 0 <= j < n ==> #[trigger] ms1[j] == ms2[j],
        forall|j: int| 0 <= j < n ==> #[trigger] s1[j] == s2[j],
    ensures
        apply_prefix(d, ms1, s1, n) == apply_prefix(d, ms2, s2, n),
    decreases n,
{
    if n > 0 {
        lemma_apply_prefix_agree(d, ms1, s1, ms2, s2, (n - 1) as nat);
        assert(ms1[n - 1] == ms2[n - 1] && s1[n - 1] == s2[n - 1]);
    }
}

/// The first `|ma| + j` items of `ma + mb` lead where `ma` and then the first
/// `j` items of `mb` lead.
proof fn lemma_apply_prefix_concat(
    d: UniverseData,
    ma: Seq<ValidData>,
    sa: Seq<u64>,
    mb: Seq<ValidData>,
    sb: Seq<u64>,
    j: nat,
)
    requires
        sa.len() == ma.len(),
        sb.len() == mb.len(),
        j <= mb.len(),
    ensures
        apply_prefix(d, ma + mb, sa + sb, ma.len() + j) == apply_prefix(apply_prefix(d, ma, sa, ma.len()), mb, sb, j),
    decreases j,
{
    if j == 0 {
        assert forall|k: int| 0 <= k < ma.len() implies #[trigger] (ma + mb)[k] == ma[k] by {}
        assert forall|k: int| 0 <= k < ma.len() implies #[trigger] (sa + sb)[k] == sa[k] by {}
        lemma_apply_prefix_agree(d, ma + mb, sa + sb, ma, sa, ma.len());
    } else {
        lemma_apply_prefix_concat(d, ma, sa, mb, sb, (j - 1) as nat);
        assert((ma + mb)[ma.len() + j - 1] == mb[j - 1]);
        assert((sa + sb)[ma.len() + j - 1] == sb[j - 1]);
    }
}

/// The meanings of two lists one after the other are the meanings of each.
proof fn lemma_meanings_concat(xa: Seq<MutationData>, xb: Seq<MutationData>)
    ensures
        meanings(xa + xb) == meanings(xa) + meanings(xb),
        valid_before(xa + xb, (xa.len() + xb.len()) as int) <==> (valid_before(xa, xa.len() as int) && valid_before(
            xb,
            xb.len() as int,
        )),
{
    assert(meanings(xa + xb) =~= meanings(xa) + meanings(xb)) by {
        assert forall|i: int| 0 <= i < xa.len() + xb.len() implies #[trigger] meanings(xa + xb)[i] == (meanings(xa)
            + meanings(xb))[i] by {
            if i < xa.len() {
                assert((xa + xb)[i] == xa[i]);
            } else {
                assert((xa + xb)[i] == xb[i - xa.len()]);
            }
        }
    }
    if valid_before(xa, xa.len() as int) && valid_before(xb, xb.len() as int) {
        assert forall|j: int| 0 <= j < xa.len() + xb.len() implies #[trigger] mutation_meaning((xa + xb)[j]) is Ok by {
            if j < xa.len() {
                assert((xa + xb)[j] == xa[j]);
            } else {
                assert((xa + xb)[j] == xb[j - xa.len()]);
            }
        }
    }
    if valid_before(xa + xb, (xa.len() + xb.len()) as int) {
        assert forall|j: int| 0 <= j < xa.len() implies #[trigger] mutation_meaning(xa[j]) is Ok by {
            assert((xa + xb)[j] == xa[j]);
        }
        assert forall|j: int| 0 <= j < xb.len() implies #[trigger] mutation_meaning(xb[j]) is Ok by {
            assert((xa + xb)[xa.len() + j] == xb[j]);
        }
    }
}

/// Law: applying one mutation list and then another, each accepted, gives a
/// state that applying the two lists as one list gives, and that list is
/// accepted too: items are checked one by one and apply in order, each to the
/// state the items before it left. The premises are what
/// `apply_universe_mutations` promises of each accepted call.
pub proof fn lemma_mutation_lists_compose<A: Fn(u64, u64) -> u64>(
    add: A,
    d: UniverseData,
    xa: Seq<MutationData>,
    xb: Seq<MutationData>,
    mid: UniverseData,
    end: UniverseData,
)
    requires
        valid_before(xa, xa.len() as int),
        valid_before(xb, xb.len() as int),
        exists|sa: Seq<u64>|
            sums_fit(add, d, meanings(xa), sa) && mid == apply_prefix(d, meanings(xa), sa, xa.len() as nat),
        exists|sb: Seq<u64>|
            sums_fit(add, mid, meanings(xb), sb) && end == apply_prefix(mid, meanings(xb), sb, xb.len() as nat),
    ensures
        valid_before(xa + xb, (xa.len() + xb.len()) as int),
        exists|sums: Seq<u64>|
            sums_fit(add, d, meanings(xa + xb), sums) && end == apply_prefix(
                d,
                meanings(xa + xb),
                sums,
                (xa.len() + xb.len()) as nat,
            ),
{
    lemma_meanings_concat(xa, xb);
    let sa = choose|sa: Seq<u64>|
        sums_fit(add, d, meanings(xa), sa) && mid == apply_prefix(d, meanings(xa), sa, xa.len() as nat);
    let sb = choose|sb: Seq<u64>|
        sums_fit(add, mid, meanings(xb), sb) && end == apply_prefix(mid, meanings(xb), sb, xb.len() as nat);
    let ma = meanings(xa);
    let mb = meanings(xb);
    let ms = ma + mb;
    let sums = sa + sb;
    lemma_apply_prefix_concat(d, ma, sa, mb, sb, mb.len());
    assert forall|j: int| 0 <= j < ms.len() && is_numeric(#[trigger] ms[j]) implies call_ensures(
        add,
        numeric_operands(apply_prefix(d, ms, sums, j as nat), ms[j]),
        sums[j],
    ) by {
        if j < ma.len() {
            assert forall|k: int| 0 <= k < j implies #[trigger] ms[k] == ma[k] by {}
            assert forall|k: int| 0 <= k < j implies #[trigger] sums[k] == sa[k] by {}
            lemma_apply_prefix_agree(d, ms, sums, ma, sa, j as nat);
            assert(ms[j] == ma[j] && sums[j] == sa[j]);
        } else {
            let i = j - ma.len();
            lemma_apply_prefix_concat(d, ma, sa, mb, sb, i as nat);
            assert(ms[j] == mb[i] && sums[j] == sb[i]);
        }
    }
    assert(sums_fit(add, d, ms, sums));
}

/// Law: a joined mutation list is accepted exactly when each of its two parts
/// is, and any way of applying the joined list is a way of applying the first
/// part and then the second: the sums split at the join, each part's sums fit
/// the state it starts from, and the two routes end in the same state. With
/// `lemma_mutation_lists_compose`, applying `a ++ b` succeeds exactly when
/// applying `a` and then `b` does, with equal states.
pub proof fn lemma_mutation_lists_split<A: Fn(u64, u64) -> u64>(
    add: A,
    d: UniverseData,
    xa: Seq<MutationData>,
    xb: Seq<MutationData>,
    sums: Seq<u64>,
)
    requires
        sums_fit(add, d, meanings(xa + xb), sums),
    ensures
        valid_before(xa + xb, (xa.len() + xb.len()) as int) <==> (valid_before(xa, xa.len() as int) && valid_before(
            xb,
            xb.len() as int,
        )),
        sums_fit(add, d, meanings(xa), sums.take(xa.len() as int)),
        sums_fit(
            add,
            apply_prefix(d, meanings(xa), sums.take(xa.len() as int), xa.len() as nat),
            meanings(xb),
            sums.skip(xa.len() as int),
        ),
        apply_prefix(d, meanings(xa + xb), sums, (xa.len() + xb.len()) as nat) == apply_prefix(
            apply_prefix(d, meanings(xa), sums.take(xa.len() as int), xa.len() as nat),
            meanings(xb),
            sums.skip(xa.len() as int),
            xb.len() as nat,
        ),
{
    lemma_meanings_concat(xa, xb);
    let ma = meanings(xa);
    let mb = meanings(xb);
    let ms = ma + mb;
    let sa = sums.take(xa.len() as int);
    let sb = sums.skip(xa.len() as int);
    assert(sums =~= sa + sb);
    let mid = apply_prefix(d, ma, sa, ma.len());
    lemma_apply_prefix_concat(d, ma, sa, mb, sb, mb.len());
    assert forall|j: int| 0 <= j < ma.len() && is_numeric(#[trigger] ma[j]) implies call_ensures(
        add,
        numeric_operands(apply_prefix(d, ma, sa, j as nat), ma[j]),
        sa[j],
    ) by {
        assert forall|k: int| 0 <= k < j implies #[trigger] ms[k] == ma[k] by {}
        assert forall|k: int| 0 <= k < j implies #[trigger] sums[k] == sa[k] by {}
        lemma_apply_prefix_agree(d, ms, sums, ma, sa, j as nat);
        assert(ms[j] == ma[j] && sums[j] == sa[j]);
    }
    assert forall|i: int| 0 <= i < mb.len() && is_numeric(#[trigger] mb[i]) implies call_ensures(
        add,
        numeric_operands(apply_prefix(mid, mb, sb, i as nat), mb[i]),
        sb[i],
    ) by {
        let j = ma.len() + i;
        lemma_apply_prefix_concat(d, ma, sa, mb, sb, i as nat);
        assert(ms[j] == mb[i] && sums[j] == sb[i]);
    }
}

/// The addition passed in gives one result for each pair of operands, as
/// binary64 addition does.
pub open spec fn deterministic_sum<A: Fn(u64, u64) -> u64>(add: A) -> bool {
    forall|a: u64, b: u64, x: u64, y: u64|
        #[trigger] call_ensures(add, (a, b), x) && #[trigger] call_ensures(add, (a, b), y) ==> x == y
}

/// With a deterministic addition, any two ways of summing that fit lead to the
/// same state.
proof fn lemma_fitting_sums_agree<A: Fn(u64, u64) -> u64>(
    add: A,
    d: UniverseData,
    ms: Seq<ValidData>,
    s1: Seq<u64>,
    s2: Seq<u64>,
    n: nat,
)
    requires
        deterministic_sum(add),
        sums_fit(add, d, ms, s1),
        sums_fit(add, d, ms, s2),
        n <= ms.len(),
    ensures
        apply_prefix(d, ms, s1, n) == apply_prefix(d, ms, s2, n),
    decreases n,
{
    if n > 0 {
        let j = n - 1;
        lemma_fitting_sums_agree(add, d, ms, s1, s2, j as nat);
        let before = apply_prefix(d, ms, s1, j as nat);
        if is_numeric(ms[j]) {
            let ops = numeric_operands(before, ms[j]);
            assert(call_ensures(add, numeric_operands(apply_prefix(d, ms, s1, j as nat), ms[j]), s1[j]));
            assert(call_ensures(add, numeric_operands(apply_prefix(d, ms, s2, j as nat), ms[j]), s2[j]));
            assert(call_ensures(add, (ops.0, ops.1), s1[j]));
            assert(call_ensures(add, (ops.0, ops.1), s2[j]));
            assert(s1[j] == s2[j]);
        } else {
            assert(apply_valid(before, ms[j], s1[j]) == apply_valid(before, ms[j], s2[j]));
        }
    }
}

/// Law: with an addition that gives one result per pair of operands, as binary64
/// addition does, applying two accepted mutation lists in turn gives exactly the
/// state that applying the joined list once gives. The premises on `mid`, `end`
/// and `once` are what `apply_universe_mutations` promises of each accepted call.
pub proof fn lemma_mutation_lists_compose_exactly<A: Fn(u64, u64) -> u64>(
    add: A,
    d: UniverseData,
    xa: Seq<MutationData>,
    xb: Seq<MutationData>,
    mid: UniverseData,
    end: UniverseData,
    once: UniverseData,
)
    requires
        deterministic_sum(add),
        valid_before(xa, xa.len() as int),
        valid_before(xb, xb.len() as int),
        exists|sa: Seq<u64>|
            sums_fit(add, d, meanings(xa), sa) && mid == apply_prefix(d, meanings(xa), sa, xa.len() as nat),
        exists|sb: Seq<u64>|
            sums_fit(add, mid, meanings(xb), sb) && end == apply_prefix(mid, meanings(xb), sb, xb.len() as nat),
        exists|s: Seq<u64>|
            sums_fit(add, d, meanings(xa + xb), s) && once == apply_prefix(
                d,
                meanings(xa + xb),
                s,
                (xa.len() + xb.len()) as nat,
            ),
    ensures
        once == end,
{
    lemma_mutation_lists_compose(add, d, xa, xb, mid, end);
    let ms = meanings(xa + xb);
    let n = (xa.len() + xb.len()) as nat;
    let s1 = choose|s: Seq<u64>| sums_fit(add, d, ms, s) && end == apply_prefix(d, ms, s, n);
    let s2 = choose|s: Seq<u64>| sums_fit(add, d, ms, s) && once == apply_prefix(d, ms, s, n);
    assert(ms.len() == n);
    lemma_fitting_sums_agree(add, d, ms, s1, s2, n);
}

/// Law: appending an event marker keeps every marker already under its key, in
/// order, and adds the new one at the end (the list starts empty where the key
/// had none); every other key and every other collection is left as it was.
pub proof fn lemma_append_marker_keeps_history(
    d: UniverseData,
    key: Seq<char>,
    marker: Seq<(Seq<char>, JsonData)>,
    sum: u64,
)
    ensures
        ({
            let next = apply_valid(d, ValidData::AppendEventMarker { key, marker }, sum);
            let before: Seq<Seq<(Seq<char>, JsonData)>> = if d.markers.contains_key(key) {
                d.markers[key]
            } else {
                Seq::empty()
            };
            &&& next.markers.contains_key(key)
            &&& next.markers[key].len() == before.len() + 1
            &&& forall|i: int| 0 <= i < before.len() ==> #[trigger] next.markers[key][i] == before[i]
            &&& next.markers[key][before.len() as int] == marker
            &&& forall|k: Seq<char>| k != key ==> (#[trigger] next.markers.contains_key(k) == d.markers.contains_key(k)
                && (d.markers.contains_key(k) ==> next.markers[k] == d.markers[k]))
            &&& next.facts == d.facts
            &&& next.numeric == d.numeric
            &&& next.memberships == d.memberships
        }),
{
}

/// `any_of` from position `i` on: true exactly at a first true child, false
/// exactly when every child is false.
proof fn lemma_any_outcome_from(d: UniverseData, cs: Seq<PreconditionData>, i: nat)
    requires
        i <= cs.len(),
    ensures
        any_outcome_from(d, cs, i) == Ok::<bool, Seq<char>>(false) <==> (forall|k: int|
            i <= k < cs.len() ==> #[trigger] precondition_outcome(d, cs[k]) == Ok::<bool, Seq<char>>(false)),
        any_outcome_from(d, cs, i) == Ok::<bool, Seq<char>>(true) <==> (exists|k: int|
            i <= k < cs.len() && #[trigger] precondition_outcome(d, cs[k]) == Ok::<bool, Seq<char>>(true) && (forall|j: int|
                i <= j < k ==> #[trigger] precondition_outcome(d, cs[j]) == Ok::<bool, Seq<char>>(false))),
    decreases cs.len() - i,
{
    if i < cs.len() {
        lemma_any_outcome_from(d, cs, i + 1);
        let here = precondition_outcome(d, cs[i as int]);
        if any_outcome_from(d, cs, i) == Ok::<bool, Seq<char>>(true) {
            if here == Ok::<bool, Seq<char>>(true) {
                assert(forall|j: int| i <= j < i ==> #[trigger] precondition_outcome(d, cs[j]) == Ok::<bool, Seq<char>>(false));
            } else {
                let k = choose|k: int|
                    i + 1 <= k < cs.len() && #[trigger] precondition_outcome(d, cs[k]) == Ok::<bool, Seq<char>>(true) && (forall|j: int|
                        i + 1 <= j < k ==> #[trigger] precondition_outcome(d, cs[j]) == Ok::<bool, Seq<char>>(false));
                assert forall|j: int| i <= j < k implies #[trigger] precondition_outcome(d, cs[j]) == Ok::<bool, Seq<char>>(false) by {
                    if j > i {
                        assert(i + 1 <= j < k);
                    }
                }
            }
        }
        if exists|k: int|
            i <= k < cs.len() && #[trigger] precondition_outcome(d, cs[k]) == Ok::<bool, Seq<char>>(true) && (forall|j: int|
                i <= j < k ==> #[trigger] precondition_outcome(d, cs[j]) == Ok::<bool, Seq<char>>(false)) {
            let k = choose|k: int|
                i <= k < cs.len() && #[trigger] precondition_outcome(d, cs[k]) == Ok::<bool, Seq<char>>(true) && (forall|j: int|
                    i <= j < k ==> #[trigger] precondition_outcome(d, cs[j]) == Ok::<bool, Seq<char>>(false));
            if k > i {
                assert(precondition_outcome(d, cs[i as int]) == Ok::<bool, Seq<char>>(false));
                assert forall|j: int| i + 1 <= j < k implies #[trigger] precondition_outcome(d, cs[j]) == Ok::<bool, Seq<char>>(false) by {}
            }
        }
        if forall|k: int| i <= k < cs.len() ==> #[trigger] precondition_outcome(d, cs[k]) == Ok::<bool, Seq<char>>(false) {
            assert(precondition_outcome(d, cs[i as int]) == Ok::<bool, Seq<char>>(false));
        }
    }
}

/// `all_of` from position `i` on: true exactly when every child is true, false
/// exactly at a first false child.
proof fn lemma_all_outcome_from(d: UniverseData, cs: Seq<PreconditionData>, i: nat)
    requires
        i <= cs.len(),
    ensures
        all_outcome_from(d, cs, i) == Ok::<bool, Seq<char>>(true) <==> (forall|k: int|
            i <= k < cs.len() ==> #[trigger] precondition_outcome(d, cs[k]) == Ok::<bool, Seq<char>>(true)),
        all_outcome_from(d, cs, i) == Ok::<bool, Seq<char>>(false) <==> (exists|k: int|
            i <= k < cs.len() && #[trigger] precondition_outcome(d, cs[k]) == Ok::<bool, Seq<char>>(false) && (forall|j: int|
                i <= j < k ==> #[trigger] precondition_outcome(d, cs[j]) == Ok::<bool, Seq<char>>(true))),
    decreases cs.len() - i,
{
    if i < cs.len() {
        lemma_all_outcome_from(d, cs, i + 1);
        let here = precondition_outcome(d, cs[i as int]);
        if all_outcome_from(d, cs, i) == Ok::<bool, Seq<char>>(false) {
            if here == Ok::<bool, Seq<char>>(false) {
                assert(forall|j: int| i <= j < i ==> #[trigger] precondition_outcome(d, cs[j]) == Ok::<bool, Seq<char>>(true));
            } else {
                let k = choose|k: int|
                    i + 1 <= k < cs.len() && #[trigger] precondition_outcome(d, cs[k]) == Ok::<bool, Seq<char>>(false) && (forall|j: int|
                        i + 1 <= j < k ==> #[trigger] precondition_outcome(d, cs[j]) == Ok::<bool, Seq<char>>(true));
                assert forall|j: int| i <= j < k implies #[trigger] precondition_outcome(d, cs[j]) == Ok::<bool, Seq<char>>(true) by {
                    if j > i {
                        assert(i + 1 <= j < k);
                    }
                }
            }
        }
        if exists|k: int|
            i <= k < cs.len() && #[trigger] precondition_outcome(d, cs[k]) == Ok::<bool, Seq<char>>(false) && (forall|j: int|
                i <= j < k ==> #[trigger] precondition_outcome(d, cs[j]) == Ok::<bool, Seq<char>>(true)) {
            let k = choose|k: int|
                i <= k < cs.len() && #[trigger] precondition_outcome(d, cs[k]) == Ok::<bool, Seq<char>>(false) && (forall|j: int|
                    i <= j < k ==> #[trigger] precondition_outcome(d, cs[j]) == Ok::<bool, Seq<char>>(true));
            if k > i {
                assert(precondition_outcome(d, cs[i as int]) == Ok::<bool, Seq<char>>(true));
                assert forall|j: int| i + 1 <= j < k implies #[trigger] precondition_outcome(d, cs[j]) == Ok::<bool, Seq<char>>(true) by {}
            }
        }
        if forall|k: int| i <= k < cs.len() ==> #[trigger] precondition_outcome(d, cs[k]) == Ok::<bool, Seq<char>>(true) {
            assert(precondition_outcome(d, cs[i as int]) == Ok::<bool, Seq<char>>(true));
        }
    }
}

/// Law: `any_of` holds exactly when some child holds and every child before it
/// evaluates to false; it is false exactly when every child evaluates to false
/// (so `any_of` of no children is false). `all_of` holds exactly when every
/// child holds (so `all_of` of no children is true); it is false exactly when
/// some child is false and every child before it holds. Any other outcome is
/// the error of the first child that fails to evaluate.
pub proof fn lemma_any_all_of_semantics(d: UniverseData, cs: Seq<PreconditionData>)
    ensures
        precondition_outcome(d, PreconditionData::AnyOf(cs)) == Ok::<bool, Seq<char>>(false) <==> (forall|k: int|
            0 <= k < cs.len() ==> #[trigger] precondition_outcome(d, cs[k]) == Ok::<bool, Seq<char>>(false)),
        precondition_outcome(d, PreconditionData::AnyOf(cs)) == Ok::<bool, Seq<char>>(true) <==> (exists|k: int|
            0 <= k < cs.len() && #[trigger] precondition_outcome(d, cs[k]) == Ok::<bool, Seq<char>>(true) && (forall|j: int|
                0 <= j < k ==> #[trigger] precondition_outcome(d, cs[j]) == Ok::<bool, Seq<char>>(false))),
        precondition_outcome(d, PreconditionData::AllOf(cs)) == Ok::<bool, Seq<char>>(true) <==> (forall|k: int|
            0 <= k < cs.len() ==> #[trigger] precondition_outcome(d, cs[k]) == Ok::<bool, Seq<char>>(true)),
        precondition_outcome(d, PreconditionData::AllOf(cs)) == Ok::<bool, Seq<char>>(false) <==> (exists|k: int|
            0 <= k < cs.len() && #[trigger] precondition_outcome(d, cs[k]) == Ok::<bool, Seq<char>>(false) && (forall|j: int|
                0 <= j < k ==> #[trigger] precondition_outcome(d, cs[j]) == Ok::<bool, Seq<char>>(true))),
{
    lemma_any_outcome_from(d, cs, 0);
    lemma_all_outcome_from(d, cs, 0);
}

/// A target written as `collection.key` with a well-formed key parses back to
/// that collection and key.
pub proof fn lemma_target_round_trip(c: TargetCollection, key: Seq<char>)
    requires
        key_well_formed(key),
    ensures
        target_parse(target_text(c, key)) == Some((c, key)),
{
    reveal_strlit("facts");
    reveal_strlit("numeric_values");
    reveal_strlit("set_memberships");
    reveal_strlit("event_markers");
    let name = collection_name(c);
    let t = target_text(c, key);
    let p = name.len() as int;
    assert(t[p] == '.');
    assert forall|j: int| 0 <= j < p implies t[j] != '.' by {
        assert(t[j] == name[j]);
    }
    lemma_char_index_from(t, '.', 0);
    assert(char_index_from(t, '.', 0) == Some(p));
    assert(t.subrange(0, p) =~= name);
    assert(t.subrange(p + 1, t.len() as int) =~= key);
}

/// Law: clearing a fact leaves its target absent.
pub proof fn lemma_clear_fact_makes_absent(d: UniverseData, key: Seq<char>, sum: u64)
    requires
        key_well_formed(key),
    ensures
        leaf_outcome(
            apply_valid(d, ValidData::ClearFact { key }, sum),
            target_text(TargetCollection::Facts, key),
            "absent"@,
            None,
        ) == Ok::<bool, Seq<char>>(true),
{
    lemma_target_round_trip(TargetCollection::Facts, key);
    reveal_strlit("absent");
    reveal_strlit("equals");
    reveal_strlit("member_of");
    assert("absent"@ != "equals"@) by {
        assert("absent"@[0] != "equals"@[0]);
    }
    assert("absent"@ != "member_of"@) by {
        assert("absent"@[0] != "member_of"@[0]);
    }
    let d2 = apply_valid(d, ValidData::ClearFact { key }, sum);
    assert(!d2.facts.contains_key(key));
}

/// Law: after a member is added, `member_of` with that member holds.
pub proof fn lemma_add_membership_then_member(d: UniverseData, key: Seq<char>, member: ScalarData, sum: u64)
    requires
        key_well_formed(key),
    ensures
        leaf_outcome(
            apply_valid(d, ValidData::AddMembership { key, member }, sum),
            target_text(TargetCollection::SetMemberships, key),
            "member_of"@,
            Some(scalar_json(member)),
        ) == Ok::<bool, Seq<char>>(true),
{
    lemma_target_round_trip(TargetCollection::SetMemberships, key);
    reveal_strlit("absent");
    reveal_strlit("equals");
    reveal_strlit("member_of");
    lemma_sorted_insert_contains(members_at(d, key), member);
    assert(json_scalar(scalar_json(member)) == member);
    assert("member_of"@ != "equals"@) by {
        assert("member_of"@[0] != "equals"@[0]);
    }
    let d2 = apply_valid(d, ValidData::AddMembership { key, member }, sum);
    assert(d2.memberships.contains_key(key));
    assert(d2.memberships[key] == sorted_insert(members_at(d, key), member));
    assert(is_scalar(scalar_json(member)));
}

proof fn lemma_sorted_insert_contains(s: Seq<ScalarData>, x: ScalarData)
    ensures
        scalars_contain(sorted_insert(s, x), x),
    decreases s.len(),
{
    let r = sorted_insert(s, x);
    if s.len() == 0 {
        assert(r[0] == x);
    } else if crate::core_model::scalar_set::scalar_less(s[0], x) {
        lemma_sorted_insert_contains(s.drop_first(), x);
        let t = sorted_insert(s.drop_first(), x);
        let i = choose|i: int| 0 <= i < t.len() && crate::core_model::scalar_set::scalar_same(#[trigger] t[i], x);
        assert(r[i + 1] == t[i]);
    } else if crate::core_model::scalar_set::scalar_same(s[0], x) {
        assert(r[0] == s[0]);
    } else {
        assert(r[0] == x);
    }
}

/// Law: adding a member to a key that held no set and then removing it again
/// leaves the memberships as they were.
pub proof fn lemma_add_then_remove_membership(d: UniverseData, key: Seq<char>, member: ScalarData, s1: u64, s2: u64)
    requires
        !d.memberships.contains_key(key),
    ensures
        apply_valid(
            apply_valid(d, ValidData::AddMembership { key, member }, s1),
            ValidData::RemoveMembership { key, member },
            s2,
        ).memberships == d.memberships,
{
    let once = apply_valid(d, ValidData::AddMembership { key, member }, s1);
    assert(members_at(d, key) =~= Seq::<ScalarData>::empty());
    assert(sorted_insert(Seq::<ScalarData>::empty(), member) == seq![member]);
    assert(once.memberships[key] == seq![member]);
    assert(seq![member].drop_first() =~= Seq::<ScalarData>::empty());
    assert(sorted_remove(seq![member], member) =~= Seq::<ScalarData>::empty());
    assert(once.memberships.remove(key) =~= d.memberships);
}

/// Law: a numeric mutation on a missing key starts from zero.
pub proof fn lemma_numeric_starts_from_zero(d: UniverseData, m: ValidData)
    requires
        is_numeric(m),
        !d.numeric.contains_key(
            match m {
                ValidData::IncrementNumeric { key, .. } => key,
                ValidData::DecrementNumeric { key, .. } => key,
                _ => Seq::empty(),
            },
        ),
    ensures
        numeric_operands(d, m).0 == 0,
{
}

/// Law: setting a fact and then clearing it leaves the facts as they were when
/// the key held no fact before.
pub proof fn lemma_set_then_clear_fact(d: UniverseData, key: Seq<char>, value: JsonData, s1: u64, s2: u64)
    requires
        !d.facts.contains_key(key),
    ensures
        apply_valid(apply_valid(d, ValidData::SetFact { key, value }, s1), ValidData::ClearFact { key }, s2) == d,
{
    let once = apply_valid(d, ValidData::SetFact { key, value }, s1);
    assert(once.facts.remove(key) =~= d.facts);
}

/// Law: a fact that was set reads back as equal to what was written (for
/// well-formed JSON, the only kind serde_json holds).
pub proof fn lemma_set_fact_reads_back(d: UniverseData, key: Seq<char>, value: JsonData, sum: u64)
    requires
        key_well_formed(key),
        json_wf(value),
    ensures
        leaf_outcome(
            apply_valid(d, ValidData::SetFact { key, value }, sum),
            target_text(TargetCollection::Facts, key),
            "equals"@,
            Some(value),
        ) == Ok::<bool, Seq<char>>(true),
{
    lemma_target_round_trip(TargetCollection::Facts, key);
    lemma_json_eq_reflexive(value);
    let d2 = apply_valid(d, ValidData::SetFact { key, value }, sum);
    assert(d2.facts.contains_key(key) && d2.facts[key] == value);
}

/// Law: a numeric value that was incremented from a missing key reads back as
/// equal to the delta when the adder gives `0 + x == x`.
pub proof fn lemma_numeric_equals_after_first_increment(d: UniverseData, key: Seq<char>, delta: u64, sum: u64, n: crate::json::NumberData)
    requires
        key_well_formed(key),
        !d.numeric.contains_key(key),
        sum == number_f64_bits(n) as u64,
        !is_nan_bits(sum),
    ensures
        leaf_outcome(
            apply_valid(d, ValidData::IncrementNumeric { key, delta }, sum),
            target_text(TargetCollection::NumericValues, key),
            "equals"@,
            Some(JsonData::Number(n)),
        ) == Ok::<bool, Seq<char>>(true),
{
    lemma_target_round_trip(TargetCollection::NumericValues, key);
}

} // verus!
