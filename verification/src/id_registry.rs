//! The registry of object types and the identifier prefix of each.
use vstd::prelude::*;

use vstd::string::StrSliceExecFns;

use crate::text::str_eq;

verus! {

/// Every kind of admitted object that carries a prefixed identifier.
#[derive(Debug, Clone, Copy, PartialEq, Eq, Hash, Structural)]
pub enum ObjectType {
    Task,
    Objective,
    Plan,
    LogEntry,
    ExternalReference,
    Compartment,
    Snapshot,
    AutomationWorker,
    ProjectionPreview,
    Calendar,
    Preference,
    Container,
    UniverseState,
    Identity,
    Relationship,
    ExternalEvent,
}

/// The name of an object type, as `ObjectType::as_str` spells it.
pub open spec fn object_type_name(t: ObjectType) -> Seq<char> {
    match t {
        ObjectType::Task => "Task"@,
        ObjectType::Objective => "Objective"@,
        ObjectType::Plan => "Plan"@,
        ObjectType::LogEntry => "LogEntry"@,
        ObjectType::ExternalReference => "ExternalReference"@,
        ObjectType::Compartment => "Compartment"@,
        ObjectType::Snapshot => "Snapshot"@,
        ObjectType::AutomationWorker => "AutomationWorker"@,
        ObjectType::ProjectionPreview => "ProjectionPreview"@,
        ObjectType::Calendar => "Calendar"@,
        ObjectType::Preference => "Preference"@,
        ObjectType::Container => "Container"@,
        ObjectType::UniverseState => "UniverseState"@,
        ObjectType::Identity => "Identity"@,
        ObjectType::Relationship => "Relationship"@,
        ObjectType::ExternalEvent => "ExternalEvent"@,
    }
}

/// The registered identifier prefix of an object type, underscore included.
pub open spec fn prefix_of(t: ObjectType) -> Seq<char> {
    match t {
        ObjectType::Task => "task_"@,
        ObjectType::Objective => "obj_"@,
        ObjectType::Plan => "plan_"@,
        ObjectType::LogEntry => "log_"@,
        ObjectType::ExternalReference => "xref_"@,
        ObjectType::Compartment => "comp_"@,
        ObjectType::Snapshot => "snap_"@,
        ObjectType::AutomationWorker => "worker_"@,
        ObjectType::ProjectionPreview => "proj_"@,
        ObjectType::Calendar => "cal_"@,
        ObjectType::Preference => "pref_"@,
        ObjectType::Container => "container_"@,
        ObjectType::UniverseState => "ustate_"@,
        ObjectType::Identity => "identity_"@,
        ObjectType::Relationship => "rel_"@,
        ObjectType::ExternalEvent => "xevent_"@,
    }
}

/// The registry in its declared order.
pub open spec fn registry_order() -> Seq<ObjectType> {
    seq![
        ObjectType::Task,
        ObjectType::Objective,
        ObjectType::Plan,
        ObjectType::LogEntry,
        ObjectType::ExternalReference,
        ObjectType::Compartment,
        ObjectType::Snapshot,
        ObjectType::AutomationWorker,
        ObjectType::ProjectionPreview,
        ObjectType::Calendar,
        ObjectType::Preference,
        ObjectType::Container,
        ObjectType::UniverseState,
        ObjectType::Identity,
        ObjectType::Relationship,
        ObjectType::ExternalEvent,
    ]
}

/// The object type registered under `prefix`, if any.
pub open spec fn type_for_prefix(prefix: Seq<char>) -> Option<ObjectType> {
    if exists|t: ObjectType| prefix_of(t) == prefix {
        Some(choose|t: ObjectType| prefix_of(t) == prefix)
    } else {
        None
    }
}

/// Every object type is in the registry.
pub open spec fn is_registered(t: ObjectType) -> bool {
    registry_order().contains(t)
}

impl ObjectType {
    pub fn as_str(self) -> (r: &'static str)
        ensures
            r@ == object_type_name(self),
    {
        match self {
            ObjectType::Task => "Task",
            ObjectType::Objective => "Objective",
            ObjectType::Plan => "Plan",
            ObjectType::LogEntry => "LogEntry",
            ObjectType::ExternalReference => "ExternalReference",
            ObjectType::Compartment => "Compartment",
            ObjectType::Snapshot => "Snapshot",
            ObjectType::AutomationWorker => "AutomationWorker",
            ObjectType::ProjectionPreview => "ProjectionPreview",
            ObjectType::Calendar => "Calendar",
            ObjectType::Preference => "Preference",
            ObjectType::Container => "Container",
            ObjectType::UniverseState => "UniverseState",
            ObjectType::Identity => "Identity",
            ObjectType::Relationship => "Relationship",
            ObjectType::ExternalEvent => "ExternalEvent",
        }
    }
}

/// One registry entry: a prefix and the object type it identifies.
#[derive(Debug, Clone, Copy, PartialEq, Eq)]
pub struct PrefixEntry {
    pub prefix: &'static str,
    pub object_type: ObjectType,
}

/// Reveals the characters of every registered prefix.
pub proof fn reveal_prefixes()
    ensures
        "task_"@ == seq!['t', 'a', 's', 'k', '_'],
        "obj_"@ == seq!['o', 'b', 'j', '_'],
        "plan_"@ == seq!['p', 'l', 'a', 'n', '_'],
        "log_"@ == seq!['l', 'o', 'g', '_'],
        "xref_"@ == seq!['x', 'r', 'e', 'f', '_'],
        "comp_"@ == seq!['c', 'o', 'm', 'p', '_'],
        "snap_"@ == seq!['s', 'n', 'a', 'p', '_'],
        "worker_"@ == seq!['w', 'o', 'r', 'k', 'e', 'r', '_'],
        "proj_"@ == seq!['p', 'r', 'o', 'j', '_'],
        "cal_"@ == seq!['c', 'a', 'l', '_'],
        "pref_"@ == seq!['p', 'r', 'e', 'f', '_'],
        "container_"@ == seq!['c', 'o', 'n', 't', 'a', 'i', 'n', 'e', 'r', '_'],
        "ustate_"@ == seq!['u', 's', 't', 'a', 't', 'e', '_'],
        "identity_"@ == seq!['i', 'd', 'e', 'n', 't', 'i', 't', 'y', '_'],
        "rel_"@ == seq!['r', 'e', 'l', '_'],
        "xevent_"@ == seq!['x', 'e', 'v', 'e', 'n', 't', '_'],
{
    reveal_strlit("task_");
    reveal_strlit("obj_");
    reveal_strlit("plan_");
    reveal_strlit("log_");
    reveal_strlit("xref_");
    reveal_strlit("comp_");
    reveal_strlit("snap_");
    reveal_strlit("worker_");
    reveal_strlit("proj_");
    reveal_strlit("cal_");
    reveal_strlit("pref_");
    reveal_strlit("container_");
    reveal_strlit("ustate_");
    reveal_strlit("identity_");
    reveal_strlit("rel_");
    reveal_strlit("xevent_");
}

/// Distinct object types have distinct prefixes.
pub proof fn lemma_prefixes_distinct(a: ObjectType, b: ObjectType)
    ensures
        prefix_of(a) == prefix_of(b) ==> a == b,
{
    reveal_prefixes();
    if prefix_of(a) == prefix_of(b) && a != b {
        let pa = prefix_of(a);
        let pb = prefix_of(b);
        assert(pa.len() == pb.len());
        assert(pa[0] == pb[0]);
        assert(pa[1] == pb[1]);
        assert(pa[2] == pb[2]);
        assert(pa[3] == pb[3]);
    }
}

/// Law: the registry is a bijection between object types and prefixes; looking up
/// the prefix of a type gives back that type.
pub proof fn lemma_prefix_round_trip(t: ObjectType)
    ensures
        type_for_prefix(prefix_of(t)) == Some(t),
        is_registered(t),
{
    assert(prefix_of(t) == prefix_of(t));
    let c = choose|u: ObjectType| prefix_of(u) == prefix_of(t);
    lemma_prefixes_distinct(c, t);
    match t {
        ObjectType::Task => assert(registry_order()[0] == t),
        ObjectType::Objective => assert(registry_order()[1] == t),
        ObjectType::Plan => assert(registry_order()[2] == t),
        ObjectType::LogEntry => assert(registry_order()[3] == t),
        ObjectType::ExternalReference => assert(registry_order()[4] == t),
        ObjectType::Compartment => assert(registry_order()[5] == t),
        ObjectType::Snapshot => assert(registry_order()[6] == t),
        ObjectType::AutomationWorker => assert(registry_order()[7] == t),
        ObjectType::ProjectionPreview => assert(registry_order()[8] == t),
        ObjectType::Calendar => assert(registry_order()[9] == t),
        ObjectType::Preference => assert(registry_order()[10] == t),
        ObjectType::Container => assert(registry_order()[11] == t),
        ObjectType::UniverseState => assert(registry_order()[12] == t),
        ObjectType::Identity => assert(registry_order()[13] == t),
        ObjectType::Relationship => assert(registry_order()[14] == t),
        ObjectType::ExternalEvent => assert(registry_order()[15] == t),
    }
}

/// The registered prefix of an object type.
pub fn prefix_for(object_type: ObjectType) -> (r: &'static str)
    ensures
        r@ == prefix_of(object_type),
{
    match object_type {
        ObjectType::Task => "task_",
        ObjectType::Objective => "obj_",
        ObjectType::Plan => "plan_",
        ObjectType::LogEntry => "log_",
        ObjectType::ExternalReference => "xref_",
        ObjectType::Compartment => "comp_",
        ObjectType::Snapshot => "snap_",
        ObjectType::AutomationWorker => "worker_",
        ObjectType::ProjectionPreview => "proj_",
        ObjectType::Calendar => "cal_",
        ObjectType::Preference => "pref_",
        ObjectType::Container => "container_",
        ObjectType::UniverseState => "ustate_",
        ObjectType::Identity => "identity_",
        ObjectType::Relationship => "rel_",
        ObjectType::ExternalEvent => "xevent_",
    }
}

/// The registry entries in their declared order.
pub fn prefix_entries() -> (r: Vec<PrefixEntry>)
    ensures
        r@.len() == registry_order().len(),
        forall|i: int|
            0 <= i < r@.len() ==> #[trigger] r@[i].object_type == registry_order()[i]
                && r@[i].prefix@ == prefix_of(r@[i].object_type),
{
    let order = [
        ObjectType::Task,
        ObjectType::Objective,
        ObjectType::Plan,
        ObjectType::LogEntry,
        ObjectType::ExternalReference,
        ObjectType::Compartment,
        ObjectType::Snapshot,
        ObjectType::AutomationWorker,
        ObjectType::ProjectionPreview,
        ObjectType::Calendar,
        ObjectType::Preference,
        ObjectType::Container,
        ObjectType::UniverseState,
        ObjectType::Identity,
        ObjectType::Relationship,
        ObjectType::ExternalEvent,
    ];
    assert(order@ =~= registry_order());
    let mut r: Vec<PrefixEntry> = Vec::new();
    let mut i: usize = 0;
    while i < 16
        invariant
            order@ == registry_order(),
            i <= 16,
            r@.len() == i,
            forall|j: int|
                0 <= j < i ==> #[trigger] r@[j].object_type == registry_order()[j]
                    && r@[j].prefix@ == prefix_of(r@[j].object_type),
        decreases 16 - i,
    {
        let t = order[i];
        r.push(PrefixEntry { prefix: prefix_for(t), object_type: t });
        i = i + 1;
    }
    r
}

/// The object type registered under `prefix`, if any.
pub fn object_type_for_prefix(prefix: &str) -> (r: Option<ObjectType>)
    ensures
        r == type_for_prefix(prefix@),
{
    let entries = prefix_entries();
    let mut i: usize = 0;
    while i < entries.len()
        invariant
            entries@.len() == 16,
            forall|j: int|
                0 <= j < entries@.len() ==> #[trigger] entries@[j].object_type == registry_order()[j]
                    && entries@[j].prefix@ == prefix_of(entries@[j].object_type),
            i <= entries@.len(),
            forall|j: int| 0 <= j < i ==> prefix_of(#[trigger] registry_order()[j]) != prefix@,
        decreases entries@.len() - i,
    {
        let entry = entries[i];
        if str_eq(entry.prefix, prefix) {
            proof {
                assert(prefix_of(entry.object_type) == prefix@);
                let c = choose|u: ObjectType| prefix_of(u) == prefix@;
                lemma_prefixes_distinct(c, entry.object_type);
            }
            return Some(entry.object_type);
        }
        i = i + 1;
    }
    proof {
        if exists|t: ObjectType| prefix_of(t) == prefix@ {
            let t = choose|t: ObjectType| prefix_of(t) == prefix@;
            lemma_prefix_round_trip(t);
            let k = registry_order().index_of(t);
            assert(registry_order()[k] == t);
            assert(prefix_of(registry_order()[k]) != prefix@);
        }
    }
    None
}

/// The index of the first underscore at or after position `k`, if any.
pub open spec fn first_underscore_from(s: Seq<char>, k: nat) -> Option<int>
    decreases s.len() - k,
{
    if k >= s.len() {
        None
    } else if s[k as int] == '_' {
        Some(k as int)
    } else {
        first_underscore_from(s, k + 1)
    }
}

/// The object type named by the text of `value` up to and including its first
/// underscore; `None` where there is no underscore or the prefix is not registered.
pub open spec fn type_from_id_text(s: Seq<char>) -> Option<ObjectType> {
    match first_underscore_from(s, 0) {
        Some(i) => type_for_prefix(s.subrange(0, i + 1)),
        None => None,
    }
}

/// The object type named by an identifier-like text's prefix, without checking
/// the rest of the text.
pub fn object_type_from_id(value: &str) -> (r: Option<ObjectType>)
    ensures
        r == type_from_id_text(value@),
{
    let n = value.unicode_len();
    let mut i: usize = 0;
    while i < n
        invariant
            n == value@.len(),
            i <= n,
            first_underscore_from(value@, 0) == first_underscore_from(value@, i as nat),
        decreases n - i,
    {
        if value.get_char(i) == '_' {
            let head = value.substring_char(0, i + 1);
            return object_type_for_prefix(head);
        }
        i = i + 1;
    }
    None
}

} // verus!
