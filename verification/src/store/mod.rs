pub mod mutation_envelope;
pub mod records;

pub use mutation_envelope::{
    assemble_envelope, canonical_payload_bytes, CausalityIssuer, DeviceId, EnvelopeRequest,
    ExecutionContext, FixedClock, IdempotencyKey, IssuerClock, LocalIssuer, MutationEnvelope,
    MutationKey, SystemClock, VersionRef,
};
pub use records::{AdmittedObject, CandidateObject, RecalculationTrigger, TriggerType};
