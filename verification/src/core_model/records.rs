//! Plain admitted records: snapshots, settings, compartments, containers, work
//! items, relationships, outside events and references, automation workers.
use vstd::prelude::*;

use crate::authority::AuthoritySource;
use crate::compartment_label::CompartmentLabel;
use crate::ids::UbuId;
use crate::json::JsonValue;
use crate::object_ref::ObjectRef;
use crate::policy_summary::PolicySummary;
use crate::provenance::Provenance;
use crate::source_ref::SourceRef;
use crate::time::UbuTimestamp;

verus! {

#[derive(Debug, Clone, Copy, PartialEq, Eq, Hash, Structural)]
pub enum AffectSourceKind {
    LiveObservation,
    BootstrapDefaultProfile,
}

#[derive(Debug, Clone, Copy, PartialEq, Eq, Hash, Structural)]
pub enum AffectDimension {
    Energy,
    Stress,
    MoodIntensity,
}

/// One observed affect dimension; the value is the bit pattern of a binary64 number.
#[derive(Debug, Clone, Copy, PartialEq, Eq, Structural)]
pub struct AffectDimensionObservation {
    pub dimension: AffectDimension,
    pub value: u64,
}

/// The three affect dimensions of a snapshot.
#[derive(Debug, Clone, Copy, PartialEq, Eq, Structural)]
pub struct AffectDimensions {
    pub energy: AffectDimensionObservation,
    pub stress: AffectDimensionObservation,
    pub mood_intensity: AffectDimensionObservation,
}

/// The affect observed at a snapshot, and where it came from.
#[derive(Debug, Clone, Copy, PartialEq, Eq)]
pub struct SnapshotAffect {
    pub source_kind: AffectSourceKind,
    pub observed_at: UbuTimestamp,
    pub dimensions: AffectDimensions,
}

/// A captured view of objects and affect.
#[derive(Debug, Clone, PartialEq, Eq)]
pub struct Snapshot {
    pub id: UbuId,
    pub captured_at: UbuTimestamp,
    pub objects: Vec<ObjectRef>,
    pub affect: Option<SnapshotAffect>,
    pub summary: Option<String>,
}

/// A named setting and the authority it was set under.
#[derive(Debug, PartialEq)]
pub struct Setting {
    pub id: UbuId,
    pub name: String,
    pub value: JsonValue,
    pub authority_source: AuthoritySource,
}

/// A Compartment: its label and the policy summary it carries.
#[derive(Debug, PartialEq, Eq)]
pub struct Compartment {
    pub id: UbuId,
    pub label: CompartmentLabel,
    pub policy_summary: Option<PolicySummary>,
}

/// A reference to an object with a one-line summary.
#[derive(Debug, Clone, PartialEq, Eq)]
pub struct WorkItem {
    pub object_ref: ObjectRef,
    pub summary: String,
}

/// A named collection of work items.
#[derive(Debug, Clone, PartialEq, Eq)]
pub struct Container {
    pub name: String,
    pub items: Vec<WorkItem>,
}

/// A typed link from one object to another.
#[derive(Debug, Clone, PartialEq, Eq)]
pub struct Relationship {
    pub from: ObjectRef,
    pub to: ObjectRef,
    pub kind: String,
}

/// An event reported by an outside source.
#[derive(Debug, PartialEq)]
pub struct ExternalEvent {
    pub source: SourceRef,
    pub event_type: String,
    pub occurred_at: UbuTimestamp,
    pub payload: Option<JsonValue>,
}

/// An object of an outside source that the universe refers to.
#[derive(Debug, Clone, PartialEq, Eq)]
pub struct ExternalReference {
    pub id: UbuId,
    pub source: SourceRef,
    pub title: String,
    pub observed_at: UbuTimestamp,
    pub provenance: Provenance,
}

/// A registered automation worker and what it can do.
#[derive(Debug, Clone, PartialEq, Eq)]
pub struct AutomationWorker {
    pub id: UbuId,
    pub name: String,
    pub capabilities: Vec<String>,
    pub registered_at: UbuTimestamp,
}

} // verus!
