//! Advisory review-queue candidates: identifiers, lifecycle and records, kept apart
//! from admitted objects.
use vstd::prelude::*;

use vstd::string::StrSliceExecFns;

use crate::authority::AuthoritySource;
use crate::compartment_label::CompartmentLabel;
use crate::core_model::task::unit_interval_bits;
use crate::errors::UbuError;
use crate::foreign::{hex_value, is_lower_hex, uuid_v7_simple, uuid_v7_simple_text, uuid_version_variant};
use crate::id_registry::{object_type_name, ObjectType};
use crate::ids::{id_object_type, UbuId};
use crate::json::{JsonData, JsonValue};
use crate::keyed::KeyedList;
use crate::object_ref::ObjectRef;
use crate::store::mutation_envelope::{first_invalid_id, id_error_matches, DeviceId, ExecutionContext, IdempotencyKey};
use crate::text::{join, str_eq};
use crate::text_set::TextSet;
use crate::time::UbuTimestamp;
use crate::advisory_candidate::CandidateLifecycleState::{Admitted, Archived, Deferred, Proposed, Rejected, Resurfaced, Superseded};

verus! {

/// The kind of object a candidate proposes.
#[non_exhaustive]
#[derive(Debug, Clone, Copy, PartialEq, Eq, PartialOrd, Ord, Hash, Structural)]
pub enum CandidateKind {
    Tag,
    Dependency,
    Preference,
    Decomposition,
    ClarificationQuestion,
}

/// Lifecycle of an advisory candidate in the review queue.
#[non_exhaustive]
#[derive(Debug, Clone, Copy, PartialEq, Eq, Hash, Structural)]
pub enum CandidateLifecycleState {
    Proposed,
    Deferred,
    Resurfaced,
    Admitted,
    Rejected,
    Superseded,
    Archived,
}

/// Why a deferred candidate comes back to the queue.
#[non_exhaustive]
#[derive(Debug, Clone, Copy, PartialEq, Eq, Hash, Structural)]
pub enum ResurfaceTrigger {
    MateriallyNewEvidence,
    UserRequest,
    PolicyReviewInterval,
    AcceptedChangeToTargetOrDependencies,
    ClarificationOrExternalReferenceArrival,
}

/// A disposition, not a duration or an automatic purge.
#[non_exhaustive]
#[derive(Debug, Clone, Copy, PartialEq, Eq, Hash, Structural)]
pub enum RetentionPolicy {
    /// Retain under the applicable Compartment policy.
    Retain,
    /// Payload may be purged while durable correction metadata survives.
    PurgePayload,
}

/// Review visibility restriction; neither variant grants export authority.
#[non_exhaustive]
#[derive(Debug, Clone, Copy, PartialEq, Eq, Hash, Structural)]
pub enum DisclosurePolicy {
    CompartmentOnly,
    RedactedOnly,
}

/// The schema spelling of a candidate kind.
pub open spec fn candidate_kind_wire(x: CandidateKind) -> Seq<char> {
    match x {
        CandidateKind::Tag => "tag"@,
        CandidateKind::Dependency => "dependency"@,
        CandidateKind::Preference => "preference"@,
        CandidateKind::Decomposition => "decomposition"@,
        CandidateKind::ClarificationQuestion => "clarification_question"@,
    }
}

/// The candidate kind a schema spelling names, if any.
pub open spec fn candidate_kind_named(s: Seq<char>) -> Option<CandidateKind> {
    if s == "tag"@ {
        Some(CandidateKind::Tag)
    } else if s == "dependency"@ {
        Some(CandidateKind::Dependency)
    } else if s == "preference"@ {
        Some(CandidateKind::Preference)
    } else if s == "decomposition"@ {
        Some(CandidateKind::Decomposition)
    } else if s == "clarification_question"@ {
        Some(CandidateKind::ClarificationQuestion)
    } else {
        None
    }
}

impl CandidateKind {
    /// The schema spelling.
    pub fn wire(self) -> (r: &'static str)
        ensures
            r@ == candidate_kind_wire(self),
    {
        match self {
            CandidateKind::Tag => "tag",
            CandidateKind::Dependency => "dependency",
            CandidateKind::Preference => "preference",
            CandidateKind::Decomposition => "decomposition",
            CandidateKind::ClarificationQuestion => "clarification_question",
        }
    }

    /// The value a schema spelling names; `None` for any other text.
    pub fn from_wire(value: &str) -> (r: Option<CandidateKind>)
        ensures
            r == candidate_kind_named(value@),
    {
        if str_eq(value, "tag") {
            Some(CandidateKind::Tag)
        } else if str_eq(value, "dependency") {
            Some(CandidateKind::Dependency)
        } else if str_eq(value, "preference") {
            Some(CandidateKind::Preference)
        } else if str_eq(value, "decomposition") {
            Some(CandidateKind::Decomposition)
        } else if str_eq(value, "clarification_question") {
            Some(CandidateKind::ClarificationQuestion)
        } else {
            None
        }
    }
}

/// The schema spelling of a lifecycle state.
pub open spec fn lifecycle_state_wire(x: CandidateLifecycleState) -> Seq<char> {
    match x {
        CandidateLifecycleState::Proposed => "proposed"@,
        CandidateLifecycleState::Deferred => "deferred"@,
        CandidateLifecycleState::Resurfaced => "resurfaced"@,
        CandidateLifecycleState::Admitted => "admitted"@,
        CandidateLifecycleState::Rejected => "rejected"@,
        CandidateLifecycleState::Superseded => "superseded"@,
        CandidateLifecycleState::Archived => "archived"@,
    }
}

/// The lifecycle state a schema spelling names, if any.
pub open spec fn lifecycle_state_named(s: Seq<char>) -> Option<CandidateLifecycleState> {
    if s == "proposed"@ {
        Some(CandidateLifecycleState::Proposed)
    } else if s == "deferred"@ {
        Some(CandidateLifecycleState::Deferred)
    } else if s == "resurfaced"@ {
        Some(CandidateLifecycleState::Resurfaced)
    } else if s == "admitted"@ {
        Some(CandidateLifecycleState::Admitted)
    } else if s == "rejected"@ {
        Some(CandidateLifecycleState::Rejected)
    } else if s == "superseded"@ {
        Some(CandidateLifecycleState::Superseded)
    } else if s == "archived"@ {
        Some(CandidateLifecycleState::Archived)
    } else {
        None
    }
}

impl CandidateLifecycleState {
    /// The schema spelling.
    pub fn wire(self) -> (r: &'static str)
        ensures
            r@ == lifecycle_state_wire(self),
    {
        match self {
            CandidateLifecycleState::Proposed => "proposed",
            CandidateLifecycleState::Deferred => "deferred",
            CandidateLifecycleState::Resurfaced => "resurfaced",
            CandidateLifecycleState::Admitted => "admitted",
            CandidateLifecycleState::Rejected => "rejected",
            CandidateLifecycleState::Superseded => "superseded",
            CandidateLifecycleState::Archived => "archived",
        }
    }

    /// The value a schema spelling names; `None` for any other text.
    pub fn from_wire(value: &str) -> (r: Option<CandidateLifecycleState>)
        ensures
            r == lifecycle_state_named(value@),
    {
        if str_eq(value, "proposed") {
            Some(CandidateLifecycleState::Proposed)
        } else if str_eq(value, "deferred") {
            Some(CandidateLifecycleState::Deferred)
        } else if str_eq(value, "resurfaced") {
            Some(CandidateLifecycleState::Resurfaced)
        } else if str_eq(value, "admitted") {
            Some(CandidateLifecycleState::Admitted)
        } else if str_eq(value, "rejected") {
            Some(CandidateLifecycleState::Rejected)
        } else if str_eq(value, "superseded") {
            Some(CandidateLifecycleState::Superseded)
        } else if str_eq(value, "archived") {
            Some(CandidateLifecycleState::Archived)
        } else {
            None
        }
    }
}

/// The schema spelling of a resurface trigger.
pub open spec fn resurface_trigger_wire(x: ResurfaceTrigger) -> Seq<char> {
    match x {
        ResurfaceTrigger::MateriallyNewEvidence => "materially_new_evidence"@,
        ResurfaceTrigger::UserRequest => "user_request"@,
        ResurfaceTrigger::PolicyReviewInterval => "policy_review_interval"@,
        ResurfaceTrigger::AcceptedChangeToTargetOrDependencies => "accepted_change_to_target_or_dependencies"@,
        ResurfaceTrigger::ClarificationOrExternalReferenceArrival => "clarification_or_external_reference_arrival"@,
    }
}

/// The resurface trigger a schema spelling names, if any.
pub open spec fn resurface_trigger_named(s: Seq<char>) -> Option<ResurfaceTrigger> {
    if s == "materially_new_evidence"@ {
        Some(ResurfaceTrigger::MateriallyNewEvidence)
    } else if s == "user_request"@ {
        Some(ResurfaceTrigger::UserRequest)
    } else if s == "policy_review_interval"@ {
        Some(ResurfaceTrigger::PolicyReviewInterval)
    } else if s == "accepted_change_to_target_or_dependencies"@ {
        Some(ResurfaceTrigger::AcceptedChangeToTargetOrDependencies)
    } else if s == "clarification_or_external_reference_arrival"@ {
        Some(ResurfaceTrigger::ClarificationOrExternalReferenceArrival)
    } else {
        None
    }
}

impl ResurfaceTrigger {
    /// The schema spelling.
    pub fn wire(self) -> (r: &'static str)
        ensures
            r@ == resurface_trigger_wire(self),
    {
        match self {
            ResurfaceTrigger::MateriallyNewEvidence => "materially_new_evidence",
            ResurfaceTrigger::UserRequest => "user_request",
            ResurfaceTrigger::PolicyReviewInterval => "policy_review_interval",
            ResurfaceTrigger::AcceptedChangeToTargetOrDependencies => "accepted_change_to_target_or_dependencies",
            ResurfaceTrigger::ClarificationOrExternalReferenceArrival => "clarification_or_external_reference_arrival",
        }
    }

    /// The value a schema spelling names; `None` for any other text.
    pub fn from_wire(value: &str) -> (r: Option<ResurfaceTrigger>)
        ensures
            r == resurface_trigger_named(value@),
    {
        if str_eq(value, "materially_new_evidence") {
            Some(ResurfaceTrigger::MateriallyNewEvidence)
        } else if str_eq(value, "user_request") {
            Some(ResurfaceTrigger::UserRequest)
        } else if str_eq(value, "policy_review_interval") {
            Some(ResurfaceTrigger::PolicyReviewInterval)
        } else if str_eq(value, "accepted_change_to_target_or_dependencies") {
            Some(ResurfaceTrigger::AcceptedChangeToTargetOrDependencies)
        } else if str_eq(value, "clarification_or_external_reference_arrival") {
            Some(ResurfaceTrigger::ClarificationOrExternalReferenceArrival)
        } else {
            None
        }
    }
}

/// The schema spelling of a retention policy.
pub open spec fn retention_policy_wire(x: RetentionPolicy) -> Seq<char> {
    match x {
        RetentionPolicy::Retain => "retain"@,
        RetentionPolicy::PurgePayload => "purge_payload"@,
    }
}

/// The retention policy a schema spelling names, if any.
pub open spec fn retention_policy_named(s: Seq<char>) -> Option<RetentionPolicy> {
    if s == "retain"@ {
        Some(RetentionPolicy::Retain)
    } else if s == "purge_payload"@ {
        Some(RetentionPolicy::PurgePayload)
    } else {
        None
    }
}

impl RetentionPolicy {
    /// The schema spelling.
    pub fn wire(self) -> (r: &'static str)
        ensures
            r@ == retention_policy_wire(self),
    {
        match self {
            RetentionPolicy::Retain => "retain",
            RetentionPolicy::PurgePayload => "purge_payload",
        }
    }

    /// The value a schema spelling names; `None` for any other text.
    pub fn from_wire(value: &str) -> (r: Option<RetentionPolicy>)
        ensures
            r == retention_policy_named(value@),
    {
        if str_eq(value, "retain") {
            Some(RetentionPolicy::Retain)
        } else if str_eq(value, "purge_payload") {
            Some(RetentionPolicy::PurgePayload)
        } else {
            None
        }
    }
}

/// The schema spelling of a disclosure policy.
pub open spec fn disclosure_policy_wire(x: DisclosurePolicy) -> Seq<char> {
    match x {
        DisclosurePolicy::CompartmentOnly => "compartment_only"@,
        DisclosurePolicy::RedactedOnly => "redacted_only"@,
    }
}

/// The disclosure policy a schema spelling names, if any.
pub open spec fn disclosure_policy_named(s: Seq<char>) -> Option<DisclosurePolicy> {
    if s == "compartment_only"@ {
        Some(DisclosurePolicy::CompartmentOnly)
    } else if s == "redacted_only"@ {
        Some(DisclosurePolicy::RedactedOnly)
    } else {
        None
    }
}

impl DisclosurePolicy {
    /// The schema spelling.
    pub fn wire(self) -> (r: &'static str)
        ensures
            r@ == disclosure_policy_wire(self),
    {
        match self {
            DisclosurePolicy::CompartmentOnly => "compartment_only",
            DisclosurePolicy::RedactedOnly => "redacted_only",
        }
    }

    /// The value a schema spelling names; `None` for any other text.
    pub fn from_wire(value: &str) -> (r: Option<DisclosurePolicy>)
        ensures
            r == disclosure_policy_named(value@),
    {
        if str_eq(value, "compartment_only") {
            Some(DisclosurePolicy::CompartmentOnly)
        } else if str_eq(value, "redacted_only") {
            Some(DisclosurePolicy::RedactedOnly)
        } else {
            None
        }
    }
}

/// Law: each value of the candidate vocabularies reads back from its own schema
/// spelling.
pub proof fn lemma_candidate_vocabulary_round_trip(k: CandidateKind, l: CandidateLifecycleState, t: ResurfaceTrigger, r: RetentionPolicy, d: DisclosurePolicy)
    ensures
        candidate_kind_named(candidate_kind_wire(k)) == Some(k),
        lifecycle_state_named(lifecycle_state_wire(l)) == Some(l),
        resurface_trigger_named(resurface_trigger_wire(t)) == Some(t),
        retention_policy_named(retention_policy_wire(r)) == Some(r),
        disclosure_policy_named(disclosure_policy_wire(d)) == Some(d),
{
    reveal_strlit("tag");
    reveal_strlit("dependency");
    reveal_strlit("preference");
    reveal_strlit("decomposition");
    reveal_strlit("clarification_question");
    reveal_strlit("proposed");
    reveal_strlit("deferred");
    reveal_strlit("resurfaced");
    reveal_strlit("admitted");
    reveal_strlit("rejected");
    reveal_strlit("superseded");
    reveal_strlit("archived");
    reveal_strlit("materially_new_evidence");
    reveal_strlit("user_request");
    reveal_strlit("policy_review_interval");
    reveal_strlit("accepted_change_to_target_or_dependencies");
    reveal_strlit("clarification_or_external_reference_arrival");
    reveal_strlit("retain");
    reveal_strlit("purge_payload");
    reveal_strlit("compartment_only");
    reveal_strlit("redacted_only");
    match k {
        CandidateKind::Tag => {

        },
        CandidateKind::Dependency => {
            assert("dependency"@.len() != "tag"@.len());
        },
        CandidateKind::Preference => {
            assert("preference"@.len() != "tag"@.len());
            assert("preference"@[0] != "dependency"@[0]);
        },
        CandidateKind::Decomposition => {
            assert("decomposition"@.len() != "tag"@.len());
            assert("decomposition"@.len() != "dependency"@.len());
            assert("decomposition"@.len() != "preference"@.len());
        },
        CandidateKind::ClarificationQuestion => {
            assert("clarification_question"@.len() != "tag"@.len());
            assert("clarification_question"@.len() != "dependency"@.len());
            assert("clarification_question"@.len() != "preference"@.len());
            assert("clarification_question"@.len() != "decomposition"@.len());
        },
    }
    match l {
        CandidateLifecycleState::Proposed => {

        },
        CandidateLifecycleState::Deferred => {
            assert("deferred"@[0] != "proposed"@[0]);
        },
        CandidateLifecycleState::Resurfaced => {
            assert("resurfaced"@.len() != "proposed"@.len());
            assert("resurfaced"@.len() != "deferred"@.len());
        },
        CandidateLifecycleState::Admitted => {
            assert("admitted"@[0] != "proposed"@[0]);
            assert("admitted"@[0] != "deferred"@[0]);
            assert("admitted"@.len() != "resurfaced"@.len());
        },
        CandidateLifecycleState::Rejected => {
            assert("rejected"@[0] != "proposed"@[0]);
            assert("rejected"@[0] != "deferred"@[0]);
            assert("rejected"@.len() != "resurfaced"@.len());
            assert("rejected"@[0] != "admitted"@[0]);
        },
        CandidateLifecycleState::Superseded => {
            assert("superseded"@.len() != "proposed"@.len());
            assert("superseded"@.len() != "deferred"@.len());
            assert("superseded"@[0] != "resurfaced"@[0]);
            assert("superseded"@.len() != "admitted"@.len());
            assert("superseded"@.len() != "rejected"@.len());
        },
        CandidateLifecycleState::Archived => {
            assert("archived"@[0] != "proposed"@[0]);
            assert("archived"@[0] != "deferred"@[0]);
            assert("archived"@.len() != "resurfaced"@.len());
            assert("archived"@[1] != "admitted"@[1]);
            assert("archived"@[0] != "rejected"@[0]);
            assert("archived"@.len() != "superseded"@.len());
        },
    }
    match t {
        ResurfaceTrigger::MateriallyNewEvidence => {

        },
        ResurfaceTrigger::UserRequest => {
            assert("user_request"@.len() != "materially_new_evidence"@.len());
        },
        ResurfaceTrigger::PolicyReviewInterval => {
            assert("policy_review_interval"@.len() != "materially_new_evidence"@.len());
            assert("policy_review_interval"@.len() != "user_request"@.len());
        },
        ResurfaceTrigger::AcceptedChangeToTargetOrDependencies => {
            assert("accepted_change_to_target_or_dependencies"@.len() != "materially_new_evidence"@.len());
            assert("accepted_change_to_target_or_dependencies"@.len() != "user_request"@.len());
            assert("accepted_change_to_target_or_dependencies"@.len() != "policy_review_interval"@.len());
        },
        ResurfaceTrigger::ClarificationOrExternalReferenceArrival => {
            assert("clarification_or_external_reference_arrival"@.len() != "materially_new_evidence"@.len());
            assert("clarification_or_external_reference_arrival"@.len() != "user_request"@.len());
            assert("clarification_or_external_reference_arrival"@.len() != "policy_review_interval"@.len());
            assert("clarification_or_external_reference_arrival"@.len() != "accepted_change_to_target_or_dependencies"@.len());
        },
    }
    match r {
        RetentionPolicy::Retain => {

        },
        RetentionPolicy::PurgePayload => {
            assert("purge_payload"@.len() != "retain"@.len());
        },
    }
    match d {
        DisclosurePolicy::CompartmentOnly => {

        },
        DisclosurePolicy::RedactedOnly => {
            assert("redacted_only"@.len() != "compartment_only"@.len());
        },
    }
}

/// The structural edges of the candidate lifecycle.
pub open spec fn lifecycle_edge(from: CandidateLifecycleState, to: CandidateLifecycleState) -> bool {
    match (from, to) {
        (Proposed, Admitted) | (Proposed, Rejected) | (Proposed, Deferred) | (Proposed, Superseded)
        | (Proposed, Archived) => true,
        (Resurfaced, Admitted) | (Resurfaced, Rejected) | (Resurfaced, Deferred) | (
            Resurfaced,
            Superseded,
        ) | (Resurfaced, Archived) => true,
        (Deferred, Resurfaced) | (Deferred, Rejected) | (Deferred, Superseded) | (
            Deferred,
            Archived,
        ) => true,
        (Admitted, Archived) | (Rejected, Archived) | (Superseded, Archived) => true,
        _ => false,
    }
}

/// The outcome of one lifecycle step: the new state, or the rule it breaks.
pub open spec fn transition_outcome(
    current: CandidateLifecycleState,
    next: CandidateLifecycleState,
    trigger: Option<ResurfaceTrigger>,
) -> Result<CandidateLifecycleState, UbuError> {
    if !lifecycle_edge(current, next) {
        Err(UbuError::InvalidCandidateTransition { current, next })
    } else if (next == CandidateLifecycleState::Resurfaced) != (trigger is Some) {
        Err(UbuError::InvalidResurfaceTrigger { current, next })
    } else {
        Ok(next)
    }
}

impl CandidateLifecycleState {
    /// The state every candidate starts in.
    pub fn initial() -> (r: CandidateLifecycleState)
        ensures
            r == CandidateLifecycleState::Proposed,
    {
        CandidateLifecycleState::Proposed
    }

    /// Structural edges only; `transition` additionally checks trigger placement.
    pub fn can_transition_to(self, next: CandidateLifecycleState) -> (r: bool)
        ensures
            r == lifecycle_edge(self, next),
    {
            match (self, next) {
            (Proposed, Admitted) | (Proposed, Rejected) | (Proposed, Deferred) | (
                Proposed,
                Superseded,
            ) | (Proposed, Archived) => true,
            (Resurfaced, Admitted) | (Resurfaced, Rejected) | (Resurfaced, Deferred) | (
                Resurfaced,
                Superseded,
            ) | (Resurfaced, Archived) => true,
            (Deferred, Resurfaced) | (Deferred, Rejected) | (Deferred, Superseded) | (
                Deferred,
                Archived,
            ) => true,
            (Admitted, Archived) | (Rejected, Archived) | (Superseded, Archived) => true,
            _ => false,
        }
    }

    pub fn is_terminal(self) -> (r: bool)
        ensures
            r == (self == CandidateLifecycleState::Archived),
    {
        self == CandidateLifecycleState::Archived
    }

    pub fn is_active_queue(self) -> (r: bool)
        ensures
            r == (self == CandidateLifecycleState::Proposed || self
                == CandidateLifecycleState::Resurfaced),
    {
        match self {
            CandidateLifecycleState::Proposed | CandidateLifecycleState::Resurfaced => true,
            _ => false,
        }
    }
}

/// Apply exactly one lifecycle edge, with a trigger only when resurfacing.
pub fn transition(
    current: CandidateLifecycleState,
    next: CandidateLifecycleState,
    trigger: Option<ResurfaceTrigger>,
) -> (r: Result<CandidateLifecycleState, UbuError>)
    ensures
        r == transition_outcome(current, next, trigger),
{
    if !current.can_transition_to(next) {
        return Err(UbuError::InvalidCandidateTransition { current, next });
    }
    if (next == CandidateLifecycleState::Resurfaced) != trigger.is_some() {
        return Err(UbuError::InvalidResurfaceTrigger { current, next });
    }
    Ok(next)
}

/// Law: an archived candidate is terminal; no step leaves it.
pub proof fn lemma_archived_is_terminal(next: CandidateLifecycleState, trigger: Option<ResurfaceTrigger>)
    ensures
        !lifecycle_edge(CandidateLifecycleState::Archived, next),
        transition_outcome(CandidateLifecycleState::Archived, next, trigger) is Err,
{
}

/// Law: no step stays in place, and every state but `Archived` can be archived.
pub proof fn lemma_no_self_edges_and_archivable(s: CandidateLifecycleState)
    ensures
        !lifecycle_edge(s, s),
        s != CandidateLifecycleState::Archived ==> lifecycle_edge(s, CandidateLifecycleState::Archived),
{
}

/// Law: a successful step lands on the requested state, and a resurface trigger is
/// carried exactly when the step enters `Resurfaced`.
pub proof fn lemma_transition_success(
    current: CandidateLifecycleState,
    next: CandidateLifecycleState,
    trigger: Option<ResurfaceTrigger>,
)
    ensures
        transition_outcome(current, next, trigger) is Ok <==> (lifecycle_edge(current, next) && ((next
            == CandidateLifecycleState::Resurfaced) == (trigger is Some))),
        transition_outcome(current, next, trigger) matches Ok(s) ==> s == next,
{
}

/// Law: a candidate in the active review queue (proposed or resurfaced) can be
/// admitted, rejected, deferred, superseded or archived, and a deferred one can
/// be resurfaced, rejected, superseded or archived; without a trigger each of
/// the non-resurfacing steps succeeds and lands on the requested state.
pub proof fn lemma_queue_reaches_every_decision(from: CandidateLifecycleState, to: CandidateLifecycleState)
    ensures
        ((from == CandidateLifecycleState::Proposed || from == CandidateLifecycleState::Resurfaced) && (to
            == CandidateLifecycleState::Admitted || to == CandidateLifecycleState::Rejected || to
            == CandidateLifecycleState::Deferred || to == CandidateLifecycleState::Superseded || to
            == CandidateLifecycleState::Archived)) ==> lifecycle_edge(from, to) && transition_outcome(from, to, None)
            == Ok::<CandidateLifecycleState, UbuError>(to),
        (from == CandidateLifecycleState::Deferred && (to == CandidateLifecycleState::Resurfaced || to
            == CandidateLifecycleState::Rejected || to == CandidateLifecycleState::Superseded || to
            == CandidateLifecycleState::Archived)) ==> lifecycle_edge(from, to),
        (from == CandidateLifecycleState::Deferred && (to == CandidateLifecycleState::Rejected || to
            == CandidateLifecycleState::Superseded || to == CandidateLifecycleState::Archived)) ==> transition_outcome(
            from,
            to,
            None,
        ) == Ok::<CandidateLifecycleState, UbuError>(to),
{
}

/// Law: only a deferred candidate resurfaces, and decisions (admitted, rejected,
/// superseded) can only be archived afterwards.
pub proof fn lemma_resurface_and_decisions(from: CandidateLifecycleState, to: CandidateLifecycleState)
    ensures
        lifecycle_edge(from, to) && to == CandidateLifecycleState::Resurfaced ==> from
            == CandidateLifecycleState::Deferred,
        lifecycle_edge(from, to) && (from == CandidateLifecycleState::Admitted || from
            == CandidateLifecycleState::Rejected || from == CandidateLifecycleState::Superseded)
            ==> to == CandidateLifecycleState::Archived,
        lifecycle_edge(from, to) && to == CandidateLifecycleState::Admitted ==> (from
            == CandidateLifecycleState::Proposed || from == CandidateLifecycleState::Resurfaced),
{
}

/// The text of a candidate identifier: `advcand_` and a simple UUIDv7 spelling.
pub open spec fn candidate_id_text(s: Seq<char>) -> bool {
    &&& s.len() == 40
    &&& s.subrange(0, 8) == "advcand_"@
    &&& uuid_v7_simple_text(s.subrange(8, 40))
}

/// Candidate-state identity, outside the admitted-object registry.
#[derive(Debug, Hash)]
pub struct AdvisoryCandidateId(String);

impl View for AdvisoryCandidateId {
    type V = Seq<char>;

    closed spec fn view(&self) -> Seq<char> {
        self.0@
    }
}

impl AdvisoryCandidateId {
    #[verifier::type_invariant]
    closed spec fn inv(&self) -> bool {
        candidate_id_text(self.0@)
    }

    /// Accept only `advcand_` followed by the canonical lowercase, unhyphenated
    /// spelling of a UUIDv7.
    pub fn parse(value: &str) -> (r: Result<AdvisoryCandidateId, UbuError>)
        ensures
            r is Ok <==> candidate_id_text(value@),
            r matches Ok(id) ==> id@ == value@,
            r matches Err(e) ==> e matches UbuError::InvalidAdvisoryCandidateId { value: v } && v@ == value@,
    {
        let n = value.unicode_len();
        if n != 40 {
            return Err(UbuError::InvalidAdvisoryCandidateId { value: value.to_owned() });
        }
        let head = value.substring_char(0, 8);
        if !str_eq(head, "advcand_") {
            return Err(UbuError::InvalidAdvisoryCandidateId { value: value.to_owned() });
        }
        let suffix = value.substring_char(8, 40);
        let mut i: usize = 0;
        while i < 32
            invariant
                value@.len() == 40,
                suffix@ == value@.subrange(8, 40),
                suffix@.len() == 32,
                i <= 32,
                forall|j: int| 0 <= j < i ==> is_lower_hex(#[trigger] suffix@[j]),
            decreases 32 - i,
        {
            let c = suffix.get_char(i);
            if !(('0' <= c && c <= '9') || ('a' <= c && c <= 'f')) {
                assert(!is_lower_hex(suffix@[i as int]));
                assert(suffix@ == value@.subrange(8, 40));
                return Err(UbuError::InvalidAdvisoryCandidateId { value: value.to_owned() });
            }
            i = i + 1;
        }
        match uuid_version_variant(suffix) {
            Some((7, true)) => {},
            _ => {
                return Err(UbuError::InvalidAdvisoryCandidateId { value: value.to_owned() });
            },
        }
        Ok(AdvisoryCandidateId(value.to_owned()))
    }

    /// A fresh identifier: `advcand_` and a new UUIDv7.
    pub fn generate() -> (r: AdvisoryCandidateId)
        ensures
            candidate_id_text(r@),
    {
        let suffix = uuid_v7_simple();
        let value = join("advcand_".to_owned(), suffix.as_str());
        proof {
            reveal_strlit("advcand_");
            assert(value@.subrange(0, 8) =~= "advcand_"@);
            assert(value@.subrange(8, 40) =~= suffix@);
        }
        AdvisoryCandidateId(value)
    }

    pub fn as_str(&self) -> (r: &str)
        ensures
            r@ == self@,
            candidate_id_text(self@),
    {
        proof {
            use_type_invariant(self);
        }
        self.0.as_str()
    }
}

impl Clone for AdvisoryCandidateId {
    fn clone(&self) -> (r: AdvisoryCandidateId)
        ensures
            r@ == self@,
    {
        proof {
            use_type_invariant(self);
        }
        AdvisoryCandidateId(self.0.clone())
    }
}

impl PartialEq for AdvisoryCandidateId {
    fn eq(&self, other: &Self) -> (r: bool) {
        self.0 == other.0
    }
}

impl vstd::std_specs::cmp::PartialEqSpecImpl for AdvisoryCandidateId {
    open spec fn obeys_eq_spec() -> bool {
        true
    }

    open spec fn eq_spec(&self, other: &Self) -> bool {
        self@ == other@
    }
}

impl Eq for AdvisoryCandidateId {}

/// The proposed content: inline JSON, or a redacted summary kept apart from it.
#[derive(Debug, PartialEq)]
pub enum CandidatePayload {
    Inline(JsonValue),
    RedactedSummary(String),
}

/// The review visibility class: a Compartment label, or redacted.
#[derive(Debug, PartialEq, Eq)]
pub enum ReviewLabel {
    Label(CompartmentLabel),
    Redacted,
}

/// The view of a review label: the label text, or none when redacted.
pub open spec fn review_label_view(l: ReviewLabel) -> Option<Seq<char>> {
    match l {
        ReviewLabel::Label(c) => Some(c@),
        ReviewLabel::Redacted => None,
    }
}

impl ReviewLabel {
    /// A copy of this label.
    pub fn duplicate(&self) -> (r: ReviewLabel)
        ensures
            review_label_view(r) == review_label_view(*self),
    {
        match self {
            ReviewLabel::Label(c) => ReviewLabel::Label(c.clone()),
            ReviewLabel::Redacted => ReviewLabel::Redacted,
        }
    }
}

/// Advisory model/tool provenance, never an authority grant.
#[derive(Debug, PartialEq, Eq)]
pub struct ProposingActor {
    pub model_or_tool_name: String,
    pub version: String,
    pub prompt_template_digest: Option<String>,
}

/// The texts of a proposing actor.
pub open spec fn actor_view(a: ProposingActor) -> (Seq<char>, Seq<char>, Option<Seq<char>>) {
    (
        a.model_or_tool_name@,
        a.version@,
        match a.prompt_template_digest {
            Some(d) => Some(d@),
            None => None,
        },
    )
}

impl ProposingActor {
    /// A copy of this actor.
    pub fn duplicate(&self) -> (r: ProposingActor)
        ensures
            actor_view(r) == actor_view(*self),
    {
        ProposingActor {
            model_or_tool_name: self.model_or_tool_name.clone(),
            version: self.version.clone(),
            prompt_template_digest: match &self.prompt_template_digest {
                Some(d) => Some(d.clone()),
                None => None,
            },
        }
    }
}

/// Opaque references to the decisions a candidate has been through.
#[derive(Debug, Default, PartialEq, Eq)]
pub struct CandidateLinks {
    pub deferral_ref: Option<String>,
    pub prior_deferral_ref: Option<String>,
    pub resurface_trigger: Option<ResurfaceTrigger>,
    pub trigger_evidence_refs: Vec<String>,
    pub resurfacing_reason: Option<String>,
    pub resurfacing_ref: Option<String>,
    pub supersession_ref: Option<String>,
    pub admission_ref: Option<String>,
    pub archive_ref: Option<String>,
    pub correction_ref: Option<String>,
    pub rejection_ref: Option<String>,
}

/// A versioned candidate-state record; it neither admits nor persists objects.
/// The confidence is the bit pattern of a binary64 value.
#[derive(Debug, PartialEq)]
pub struct AdvisoryCandidate {
    pub advisory_candidate_id: AdvisoryCandidateId,
    pub schema_version: String,
    pub candidate_kind: CandidateKind,
    pub lifecycle_state: CandidateLifecycleState,
    pub version: u64,
    pub target_refs: Vec<ObjectRef>,
    pub normalized_proposal: JsonValue,
    pub payload: CandidatePayload,
    pub evidence_refs: Vec<String>,
    pub confidence: Option<u64>,
    pub field_provenance: KeyedList<String>,
    pub proposed_at: UbuTimestamp,
    pub effective_time: Option<UbuTimestamp>,
    pub proposing_actor: ProposingActor,
    pub origin_device_id: DeviceId,
    pub execution_context: Option<ExecutionContext>,
    pub idempotency_key: IdempotencyKey,
    pub suppression_key: Option<String>,
    /// Compartment identifiers, in ascending order, each once.
    pub compartment_ids: TextSet,
    pub review_label: ReviewLabel,
    pub disclosure_policy: DisclosurePolicy,
    pub retention_policy: RetentionPolicy,
    pub review_order: Option<i64>,
    pub links: CandidateLinks,
}

/// A resurfaced candidate names the deferral it came back from and its trigger.
pub open spec fn resurfacing_linked(l: CandidateLinks) -> bool {
    &&& l.prior_deferral_ref matches Some(p) && p@.len() > 0
    &&& l.resurface_trigger is Some
}

/// The confidence, where present, lies in [0, 1].
pub open spec fn confidence_ok(c: Option<u64>) -> bool {
    c matches Some(bits) ==> unit_interval_bits(bits)
}

/// The candidate passes `validate`.
pub open spec fn candidate_ok(c: AdvisoryCandidate) -> bool {
    &&& confidence_ok(c.confidence)
    &&& c.version > 0
    &&& c.schema_version@.len() > 0
    &&& first_invalid_id(c.compartment_ids@, 0) is None
    &&& (c.lifecycle_state == CandidateLifecycleState::Resurfaced ==> resurfacing_linked(c.links))
}

/// `e` is the error `validate` gives for a candidate that fails it, by the first
/// rule broken: confidence, version, schema version, Compartment ids, links.
pub open spec fn candidate_error(c: AdvisoryCandidate, e: UbuError) -> bool {
    if !confidence_ok(c.confidence) {
        e matches UbuError::InvalidCandidateRecord { field } && field@ == "confidence"@
    } else if c.version == 0 {
        e matches UbuError::InvalidCandidateRecord { field } && field@ == "version"@
    } else if c.schema_version@.len() == 0 {
        e matches UbuError::InvalidCandidateRecord { field } && field@ == "schema_version"@
    } else if first_invalid_id(c.compartment_ids@, 0) is Some {
        id_error_matches(e, first_invalid_id(c.compartment_ids@, 0)->0)
    } else {
        e matches UbuError::InvalidCandidateRecord { field } && field@ == "links"@
    }
}

/// Check each identifier text in order with `UbuId::parse`.
fn check_ids(ids: &TextSet) -> (r: Result<(), UbuError>)
    ensures
        match first_invalid_id(ids@, 0) {
            None => r is Ok,
            Some(k) => r matches Err(e) && id_error_matches(e, k),
        },
{
    let items = ids.items();
    let mut i: usize = 0;
    while i < items.len()
        invariant
            crate::text_set::texts_view(items@) == ids@,
            i <= items@.len(),
            first_invalid_id(ids@, 0) == first_invalid_id(ids@, i as nat),
        decreases items@.len() - i,
    {
        assert(ids@[i as int] == items@[i as int]@);
        match UbuId::parse(items[i].as_str()) {
            Ok(_) => {},
            Err(e) => {
                return Err(e);
            },
        }
        i = i + 1;
    }
    Ok(())
}

impl AdvisoryCandidate {
    /// Check the record's own rules, in order: confidence in [0, 1], a positive
    /// version, a schema version, parseable Compartment ids, and the links a
    /// resurfaced candidate must carry.
    pub fn validate(&self) -> (r: Result<(), UbuError>)
        ensures
            r is Ok <==> candidate_ok(*self),
            r matches Err(e) ==> candidate_error(*self, e),
    {
        match self.confidence {
            Some(bits) => {
                if !(bits <= 0x3ff0_0000_0000_0000u64 || bits == 0x8000_0000_0000_0000u64) {
                    return Err(UbuError::InvalidCandidateRecord { field: "confidence" });
                }
            },
            None => {},
        }
        if self.version == 0 {
            return Err(UbuError::InvalidCandidateRecord { field: "version" });
        }
        if self.schema_version.as_str().is_empty() {
            return Err(UbuError::InvalidCandidateRecord { field: "schema_version" });
        }
        check_ids(&self.compartment_ids)?;
        if self.lifecycle_state == CandidateLifecycleState::Resurfaced {
            let linked = match &self.links.prior_deferral_ref {
                Some(p) => !p.as_str().is_empty(),
                None => false,
            } && self.links.resurface_trigger.is_some();
            if !linked {
                return Err(UbuError::InvalidCandidateRecord { field: "links" });
            }
        }
        Ok(())
    }
}

/// Durable correction metadata. It never makes the rejected proposal true,
/// accepted, exportable, more visible or admissible as evidence, and it does not
/// keep the rejected payload.
#[derive(Debug, PartialEq)]
pub struct SuppressionRecord {
    pub candidate_kind: CandidateKind,
    pub normalized_proposal: JsonValue,
    pub target_and_scope_shape: Vec<ObjectRef>,
    pub compartment_ids: TextSet,
    pub review_label: ReviewLabel,
    pub evidence_hashes_or_source_fingerprints: Vec<String>,
    pub proposing_actor: ProposingActor,
    pub schema_version: String,
    pub rejection_reason_or_user_correction: String,
    pub deciding_actor_identity_id: UbuId,
    pub authority_source: AuthoritySource,
    pub decided_at: UbuTimestamp,
    pub retention_policy: RetentionPolicy,
    pub suppression_key: String,
}

/// The record passes `validate`.
pub open spec fn suppression_ok(r: SuppressionRecord) -> bool {
    &&& id_object_type(r.deciding_actor_identity_id@) == ObjectType::Identity
    &&& r.schema_version@.len() > 0
    &&& r.rejection_reason_or_user_correction@.len() > 0
    &&& r.suppression_key@.len() > 0
    &&& first_invalid_id(r.compartment_ids@, 0) is None
}

/// `e` is the error `validate` gives for a record that fails it, by the first
/// rule broken: the deciding identity, then the three texts, then the ids.
pub open spec fn suppression_error(r: SuppressionRecord, e: UbuError) -> bool {
    if id_object_type(r.deciding_actor_identity_id@) != ObjectType::Identity {
        e matches UbuError::WrongIdObjectType { id, expected, actual } && id@ == r.deciding_actor_identity_id@
            && expected@ == object_type_name(ObjectType::Identity) && actual@ == object_type_name(
            id_object_type(r.deciding_actor_identity_id@),
        )
    } else if r.schema_version@.len() == 0 {
        e matches UbuError::InvalidSuppressionRecord { field } && field@ == "schema_version"@
    } else if r.rejection_reason_or_user_correction@.len() == 0 {
        e matches UbuError::InvalidSuppressionRecord { field } && field@
            == "rejection_reason_or_user_correction"@
    } else if r.suppression_key@.len() == 0 {
        e matches UbuError::InvalidSuppressionRecord { field } && field@ == "suppression_key"@
    } else {
        id_error_matches(e, first_invalid_id(r.compartment_ids@, 0)->0)
    }
}

impl SuppressionRecord {
    /// Check the record: a deciding Identity, non-empty schema version, reason and
    /// suppression key, and parseable Compartment ids.
    pub fn validate(&self) -> (r: Result<(), UbuError>)
        ensures
            r is Ok <==> suppression_ok(*self),
            r matches Err(e) ==> suppression_error(*self, e),
    {
        self.deciding_actor_identity_id.require_object_type(ObjectType::Identity)?;
        if self.schema_version.as_str().is_empty() {
            return Err(UbuError::InvalidSuppressionRecord { field: "schema_version" });
        }
        if self.rejection_reason_or_user_correction.as_str().is_empty() {
            return Err(UbuError::InvalidSuppressionRecord { field: "rejection_reason_or_user_correction" });
        }
        if self.suppression_key.as_str().is_empty() {
            return Err(UbuError::InvalidSuppressionRecord { field: "suppression_key" });
        }
        check_ids(&self.compartment_ids)
    }
}

/// Decision inputs that cannot be inferred from advisory provenance; fingerprints
/// and hashes are supplied explicitly.
#[derive(Debug, PartialEq)]
pub struct SuppressionDecision {
    pub deciding_actor_identity_id: UbuId,
    pub authority_source: AuthoritySource,
    pub decided_at: UbuTimestamp,
    pub rejection_reason_or_user_correction: String,
    pub retention_policy: RetentionPolicy,
    pub evidence_hashes_or_source_fingerprints: Vec<String>,
}

fn copy_refs(refs: &Vec<ObjectRef>) -> (r: Vec<ObjectRef>)
    ensures
        r@ == refs@,
{
    let mut out: Vec<ObjectRef> = Vec::new();
    let mut i: usize = 0;
    while i < refs.len()
        invariant
            i <= refs@.len(),
            out@ == refs@.subrange(0, i as int),
        decreases refs@.len() - i,
    {
        out.push(refs[i].clone());
        i = i + 1;
        assert(out@ =~= refs@.subrange(0, i as int));
    }
    assert(refs@.subrange(0, refs@.len() as int) =~= refs@);
    out
}

impl AdvisoryCandidate {
    /// Build durable correction metadata from a valid, rejected candidate with a
    /// suppression key and the decision's own inputs. It performs no retention
    /// and grants no admission authority.
    pub fn suppression_record(&self, decision: SuppressionDecision) -> (r: Result<SuppressionRecord, UbuError>)
        ensures
            !candidate_ok(*self) ==> (r matches Err(e) && candidate_error(*self, e)),
            candidate_ok(*self) && self.lifecycle_state != CandidateLifecycleState::Rejected ==> r
                == Err::<SuppressionRecord, UbuError>(UbuError::CandidateNotRejected { state: self.lifecycle_state }),
            candidate_ok(*self) && self.lifecycle_state == CandidateLifecycleState::Rejected
                && self.suppression_key is None ==> (r matches Err(UbuError::InvalidSuppressionRecord { field })
                && field@ == "suppression_key"@),
            r is Ok <==> (candidate_ok(*self) && self.lifecycle_state == CandidateLifecycleState::Rejected
                && (self.suppression_key matches Some(k) && k@.len() > 0) && id_object_type(
                decision.deciding_actor_identity_id@,
            ) == ObjectType::Identity && decision.rejection_reason_or_user_correction@.len() > 0),
            r matches Ok(rec) ==> {
                &&& rec.candidate_kind == self.candidate_kind
                &&& rec.normalized_proposal@ == self.normalized_proposal@
                &&& rec.target_and_scope_shape@ == self.target_refs@
                &&& rec.compartment_ids@ == self.compartment_ids@
                &&& review_label_view(rec.review_label) == review_label_view(self.review_label)
                &&& rec.evidence_hashes_or_source_fingerprints == decision.evidence_hashes_or_source_fingerprints
                &&& actor_view(rec.proposing_actor) == actor_view(self.proposing_actor)
                &&& rec.schema_version@ == self.schema_version@
                &&& rec.rejection_reason_or_user_correction == decision.rejection_reason_or_user_correction
                &&& rec.deciding_actor_identity_id == decision.deciding_actor_identity_id
                &&& rec.authority_source == decision.authority_source
                &&& rec.decided_at == decision.decided_at
                &&& rec.retention_policy == decision.retention_policy
                &&& rec.suppression_key@ == self.suppression_key->0@
                &&& suppression_ok(rec)
            },
            candidate_ok(*self) && self.lifecycle_state == CandidateLifecycleState::Rejected
                && self.suppression_key is Some ==> (r matches Err(e) ==> suppression_error(
                SuppressionRecord {
                    candidate_kind: self.candidate_kind,
                    normalized_proposal: self.normalized_proposal,
                    target_and_scope_shape: self.target_refs,
                    compartment_ids: self.compartment_ids,
                    review_label: self.review_label,
                    evidence_hashes_or_source_fingerprints: decision.evidence_hashes_or_source_fingerprints,
                    proposing_actor: self.proposing_actor,
                    schema_version: self.schema_version,
                    rejection_reason_or_user_correction: decision.rejection_reason_or_user_correction,
                    deciding_actor_identity_id: decision.deciding_actor_identity_id,
                    authority_source: decision.authority_source,
                    decided_at: decision.decided_at,
                    retention_policy: decision.retention_policy,
                    suppression_key: self.suppression_key->0,
                },
                e,
            )),
    {
        self.validate()?;
        if self.lifecycle_state != CandidateLifecycleState::Rejected {
            return Err(UbuError::CandidateNotRejected { state: self.lifecycle_state });
        }
        let suppression_key = match &self.suppression_key {
            Some(k) => k.clone(),
            None => {
                return Err(UbuError::InvalidSuppressionRecord { field: "suppression_key" });
            },
        };
        let record = SuppressionRecord {
            candidate_kind: self.candidate_kind,
            normalized_proposal: self.normalized_proposal.duplicate(),
            target_and_scope_shape: copy_refs(&self.target_refs),
            compartment_ids: self.compartment_ids.duplicate(),
            review_label: self.review_label.duplicate(),
            evidence_hashes_or_source_fingerprints: decision.evidence_hashes_or_source_fingerprints,
            proposing_actor: self.proposing_actor.duplicate(),
            schema_version: self.schema_version.clone(),
            rejection_reason_or_user_correction: decision.rejection_reason_or_user_correction,
            deciding_actor_identity_id: decision.deciding_actor_identity_id,
            authority_source: decision.authority_source,
            decided_at: decision.decided_at,
            retention_policy: decision.retention_policy,
            suppression_key,
        };
        record.validate()?;
        Ok(record)
    }
}

} // verus!
