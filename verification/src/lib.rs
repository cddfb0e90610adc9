//! Shared domain foundation: prefixed identifiers, timestamps, lifecycle state
//! machines, record validation, the export legitimizer and universe-state rules.
pub mod advisory_candidate;
pub mod authority;
pub mod compartment_label;
pub mod core_model;
pub mod device;
pub mod errors;
pub mod float_bits;
pub mod foreign;
pub mod github;
pub mod id_registry;
pub mod ids;
pub mod json;
pub mod json_content;
pub mod json_text;
pub mod keyed;
pub mod object_ref;
pub mod planning;
pub mod policy_summary;
pub mod projection;
pub mod provenance;
pub mod serde_helpers;
pub mod source_ref;
pub mod store;
pub mod text;
pub mod text_set;
pub mod time;
pub mod validation;
pub mod worker;

pub use advisory_candidate::{
    transition, AdvisoryCandidate, AdvisoryCandidateId, CandidateKind, CandidateLifecycleState,
    CandidateLinks, CandidatePayload, DisclosurePolicy, ProposingActor, ResurfaceTrigger,
    RetentionPolicy, ReviewLabel, SuppressionDecision, SuppressionRecord,
};
pub use device::{DeviceKind, DeviceRegistration, DeviceRegistry, SyncState, TrustState, ZoneId};
pub use json::{JsonNumber, JsonValue};
pub use keyed::KeyedList;
pub use store::{
    canonical_payload_bytes, CausalityIssuer, DeviceId, EnvelopeRequest, ExecutionContext,
    FixedClock, IdempotencyKey, IssuerClock, LocalIssuer, MutationEnvelope, MutationKey,
    SystemClock, VersionRef,
};
pub use text_set::TextSet;
pub use authority::AuthoritySource;
pub use compartment_label::CompartmentLabel;
pub use errors::UbuError;
pub use id_registry::{ObjectType, PrefixEntry};
pub use ids::UbuId;
pub use object_ref::ObjectRef;
pub use policy_summary::{Legitimization, PolicySummary};
pub use provenance::Provenance;
pub use source_ref::SourceRef;
pub use time::UbuTimestamp;
pub use projection::{
    ExportGateDecision, ExportPermit, ExportProjectionContext, Legitimizer, LegitimizerDecision,
};
