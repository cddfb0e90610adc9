//! The export gate: adjudicates projection exports against the resolved
//! Compartment policy, denying by default.
use vstd::prelude::*;

use crate::authority::{authority_wire, AuthoritySource};
use crate::core_model::log_entry::{CompartmentBoundaryDecidedPayload, PolicyMember};
use crate::object_ref::ObjectRef;
use crate::policy_summary::{legitimization_wire, Legitimization, PolicySummary};
use crate::projection::operation::ProjectionOperation;
use crate::provenance::Provenance;
use crate::text::{join, join_all, seq_join, string_views};
use crate::time::UbuTimestamp;

verus! {

/// Everything the legitimizer reads about one export request.
#[derive(Debug, Clone, Copy)]
pub struct ExportProjectionContext<'a> {
    pub operation: &'a ProjectionOperation,
    pub effective_policy: Option<&'a PolicySummary>,
    pub compartment_ref: &'a ObjectRef,
    pub actor_identity_ref: &'a ObjectRef,
    pub authority_source: AuthoritySource,
    pub effective_time: UbuTimestamp,
    pub provenance: &'a Provenance,
}

#[derive(Debug, PartialEq, Eq)]
pub struct LegitimizerDecision {
    pub legitimization: Legitimization,
    pub adjudication_reasons: Vec<String>,
    pub log_payload: CompartmentBoundaryDecidedPayload,
}

/// Proof that an export was accepted: only the legitimizer makes one.
#[derive(Debug, PartialEq, Eq)]
pub struct ExportPermit {
    operation_id: String,
    authority_source: AuthoritySource,
}

impl ExportPermit {
    pub closed spec fn spec_operation_id(&self) -> Seq<char> {
        self.operation_id@
    }

    pub closed spec fn spec_authority_source(&self) -> AuthoritySource {
        self.authority_source
    }

    pub fn operation_id(&self) -> (r: &str)
        ensures
            r@ == self.spec_operation_id(),
    {
        self.operation_id.as_str()
    }

    pub fn authority_source(&self) -> (r: AuthoritySource)
        ensures
            r == self.spec_authority_source(),
    {
        self.authority_source
    }
}

#[derive(Debug, PartialEq, Eq)]
pub struct ExportGateDecision {
    pub decision: LegitimizerDecision,
    permit: Option<ExportPermit>,
}

impl ExportGateDecision {
    pub closed spec fn spec_decision(&self) -> LegitimizerDecision {
        self.decision
    }

    pub closed spec fn spec_permit(&self) -> Option<ExportPermit> {
        self.permit
    }

    pub fn permit(&self) -> (r: Option<&ExportPermit>)
        ensures
            r == match self.spec_permit() {
                Some(p) => Some(&p),
                None => None::<&ExportPermit>,
            },
    {
        match &self.permit {
            Some(p) => Some(p),
            None => None,
        }
    }

    /// The decision, by reference: the value of the public `decision` field,
    /// which Verus callers outside this module read through this method.
    pub fn decision(&self) -> (r: &LegitimizerDecision)
        ensures
            *r == self.spec_decision(),
    {
        &self.decision
    }

    pub fn into_decision(self) -> (r: LegitimizerDecision)
        ensures
            r == self.spec_decision(),
    {
        self.decision
    }
}

pub open spec fn user_equivalent(a: AuthoritySource) -> bool {
    a == AuthoritySource::User || a == AuthoritySource::UserOverride
}

pub open spec fn authority_reason(op: Seq<char>, a: AuthoritySource) -> Seq<char> {
    if user_equivalent(a) {
        "Projection export operation "@ + op + " used user-equivalent authority "@ + authority_wire(a)
            + "; export is rejected by default. Export-class operations require automation_worker authority."@
    } else {
        "Projection export operation "@ + op + " used authority "@ + authority_wire(a)
            + "; export is rejected by default. Export-class operations require automation_worker authority."@
    }
}

pub open spec fn unresolved_reason(op: Seq<char>) -> Seq<char> {
    "Effective Compartment policy could not be resolved for projection operation "@ + op
        + "; export is rejected by default."@
}

pub open spec fn local_only_reason(op: Seq<char>) -> Seq<char> {
    "Compartment policy local_only forbids external export for projection operation "@ + op + "."@
}

pub open spec fn no_export_reason(op: Seq<char>) -> Seq<char> {
    "Compartment policy no_external_export forbids external export for projection operation "@ + op
        + "."@
}

pub open spec fn permitted_reason(op: Seq<char>) -> Seq<char> {
    "Resolved Compartment policy explicitly permits external export for projection operation "@ + op
        + "."@
}

pub open spec fn not_accepted_reason(l: Legitimization, op: Seq<char>) -> Seq<char> {
    "Resolved Compartment policy returned "@ + legitimization_wire(l) + " for projection operation "@
        + op + "; export is denied by default because the legitimization is not accepted."@
}

pub open spec fn not_explicit_reason(op: Seq<char>) -> Seq<char> {
    "Resolved Compartment policy does not explicitly permit external export for projection operation "@
        + op + "; export is rejected by default."@
}

/// Whether a resolved policy explicitly permits external export.
pub open spec fn explicitly_permits(p: &PolicySummary) -> bool {
    p.legitimization == Legitimization::Accepted && p.local_only == Some(false)
        && p.no_external_export == Some(false)
}

/// The adjudication: legitimization, the policy member evaluated, and the reasons.
pub open spec fn adjudication(op: Seq<char>, policy: Option<&PolicySummary>, a: AuthoritySource) -> (
    Legitimization,
    PolicyMember,
    Seq<Seq<char>>,
) {
    if a != AuthoritySource::AutomationWorker {
        (Legitimization::Rejected, PolicyMember::NoExternalExport, seq![authority_reason(op, a)])
    } else {
        match policy {
            None => (Legitimization::Rejected, PolicyMember::NoExternalExport, seq![unresolved_reason(op)]),
            Some(p) => {
                let lo = p.local_only == Some(true);
                let ne = p.no_external_export == Some(true);
                if lo || ne {
                    let members: Seq<PolicyMember> = (if lo { seq![PolicyMember::LocalOnly] } else { Seq::empty() })
                        + (if ne { seq![PolicyMember::NoExternalExport] } else { Seq::empty() });
                    let reasons: Seq<Seq<char>> = (if lo { seq![local_only_reason(op)] } else { Seq::empty() })
                        + (if ne { seq![no_export_reason(op)] } else { Seq::empty() });
                    (Legitimization::Rejected, members[0], reasons)
                } else if p.legitimization == Legitimization::Accepted && p.local_only == Some(false)
                    && p.no_external_export == Some(false) {
                    (Legitimization::Accepted, PolicyMember::NoExternalExport, seq![permitted_reason(op)])
                } else if p.legitimization != Legitimization::Accepted {
                    (p.legitimization, PolicyMember::NoExternalExport, seq![not_accepted_reason(p.legitimization, op)])
                } else {
                    (Legitimization::Rejected, PolicyMember::NoExternalExport, seq![not_explicit_reason(op)])
                }
            },
        }
    }
}

struct ExportAdjudication {
    legitimization: Legitimization,
    member_evaluated: PolicyMember,
    reasons: Vec<String>,
}

fn text_of(pieces: &[&str]) -> (r: String)
    ensures
        r@ == pieces_text(pieces@),
{
    let mut r = String::new();
    let mut i: usize = 0;
    while i < pieces.len()
        invariant
            i <= pieces@.len(),
            r@ == pieces_text(pieces@.take(i as int)),
        decreases pieces@.len() - i,
    {
        assert(pieces@.take(i + 1).drop_last() =~= pieces@.take(i as int));
        r = join(r, pieces[i]);
        i = i + 1;
    }
    assert(pieces@.take(pieces@.len() as int) =~= pieces@);
    r
}

spec fn pieces_text(pieces: Seq<&str>) -> Seq<char>
    decreases pieces.len(),
{
    if pieces.len() == 0 {
        Seq::empty()
    } else {
        pieces_text(pieces.drop_last()) + pieces.last()@
    }
}

fn one_reason(reason: String) -> (r: Vec<String>)
    ensures
        string_views(r@) == seq![reason@],
{
    let mut r: Vec<String> = Vec::new();
    r.push(reason);
    assert(string_views(r@) =~= seq![reason@]);
    r
}

fn adjudicate(operation: &ProjectionOperation, effective_policy: Option<&PolicySummary>, authority_source: AuthoritySource) -> (r: ExportAdjudication)
    ensures
        ({
            let (l, m, rs) = adjudication(operation.operation_id@, effective_policy, authority_source);
            r.legitimization == l && r.member_evaluated == m && string_views(r.reasons@) == rs
        }),
{
    let op = operation.operation_id.as_str();
    if authority_source != AuthoritySource::AutomationWorker {
        let reason = if authority_source == AuthoritySource::User || authority_source == AuthoritySource::UserOverride {
            let r = text_of(&["Projection export operation ", op, " used user-equivalent authority ", authority_source.wire(),
                "; export is rejected by default. Export-class operations require automation_worker authority."]);
            proof { reveal_with_fuel(pieces_text, 6); }
            r
        } else {
            let r = text_of(&["Projection export operation ", op, " used authority ", authority_source.wire(),
                "; export is rejected by default. Export-class operations require automation_worker authority."]);
            proof { reveal_with_fuel(pieces_text, 6); }
            r
        };
        return ExportAdjudication {
            legitimization: Legitimization::Rejected,
            member_evaluated: PolicyMember::NoExternalExport,
            reasons: one_reason(reason),
        };
    }
    let policy = match effective_policy {
        Some(p) => p,
        None => {
            let reason = text_of(&["Effective Compartment policy could not be resolved for projection operation ", op,
                "; export is rejected by default."]);
            proof { reveal_with_fuel(pieces_text, 4); }
            return ExportAdjudication {
                legitimization: Legitimization::Rejected,
                member_evaluated: PolicyMember::NoExternalExport,
                reasons: one_reason(reason),
            };
        },
    };
    let mut rejecting_members: Vec<PolicyMember> = Vec::new();
    let mut reasons: Vec<String> = Vec::new();
    let lo = policy.local_only == Some(true);
    let ne = policy.no_external_export == Some(true);
    if lo {
        rejecting_members.push(PolicyMember::LocalOnly);
        let reason = text_of(&["Compartment policy local_only forbids external export for projection operation ", op, "."]);
        proof { reveal_with_fuel(pieces_text, 4); }
        reasons.push(reason);
    }
    if ne {
        rejecting_members.push(PolicyMember::NoExternalExport);
        let reason = text_of(&["Compartment policy no_external_export forbids external export for projection operation ", op, "."]);
        proof { reveal_with_fuel(pieces_text, 4); }
        reasons.push(reason);
    }
    if rejecting_members.len() > 0 {
        proof {
            let ghost lop = local_only_reason(op@);
            let ghost nep = no_export_reason(op@);
            assert(string_views(reasons@) =~= (if lo { seq![lop] } else { Seq::empty() }) + (if ne { seq![nep] } else { Seq::empty() }));
            assert(rejecting_members@ =~= (if lo { seq![PolicyMember::LocalOnly] } else { Seq::<PolicyMember>::empty() })
                + (if ne { seq![PolicyMember::NoExternalExport] } else { Seq::<PolicyMember>::empty() }));
        }
        return ExportAdjudication {
            legitimization: Legitimization::Rejected,
            member_evaluated: rejecting_members[0],
            reasons,
        };
    }
    if policy.legitimization == Legitimization::Accepted && policy.local_only == Some(false)
        && policy.no_external_export == Some(false) {
        let reason = text_of(&["Resolved Compartment policy explicitly permits external export for projection operation ", op, "."]);
        proof { reveal_with_fuel(pieces_text, 4); }
        return ExportAdjudication {
            legitimization: Legitimization::Accepted,
            member_evaluated: PolicyMember::NoExternalExport,
            reasons: one_reason(reason),
        };
    }
    if policy.legitimization != Legitimization::Accepted {
        let reason = text_of(&["Resolved Compartment policy returned ", policy.legitimization.wire(), " for projection operation ", op,
            "; export is denied by default because the legitimization is not accepted."]);
        proof { reveal_with_fuel(pieces_text, 6); }
        return ExportAdjudication {
            legitimization: policy.legitimization,
            member_evaluated: PolicyMember::NoExternalExport,
            reasons: one_reason(reason),
        };
    }
    let reason = text_of(&["Resolved Compartment policy does not explicitly permit external export for projection operation ", op,
        "; export is rejected by default."]);
    proof { reveal_with_fuel(pieces_text, 4); }
    ExportAdjudication {
        legitimization: Legitimization::Rejected,
        member_evaluated: PolicyMember::NoExternalExport,
        reasons: one_reason(reason),
    }
}

/// The decision the legitimizer makes for a context, as the adjudication spells it.
pub open spec fn decision_matches(d: LegitimizerDecision, context: ExportProjectionContext) -> bool {
    let (l, m, rs) = adjudication(context.operation.operation_id@, context.effective_policy, context.authority_source);
    &&& d.legitimization == l
    &&& string_views(d.adjudication_reasons@) == rs
    &&& d.log_payload.member_evaluated == m
    &&& d.log_payload.adjudication_result == l
    &&& d.log_payload.reason@ == seq_join(rs, " "@)
    &&& d.log_payload.compartment_ref == *context.compartment_ref
    &&& d.log_payload.actor_identity_ref == *context.actor_identity_ref
    &&& d.log_payload.authority_source == context.authority_source
    &&& d.log_payload.effective_time == context.effective_time
    &&& d.log_payload.provenance == *context.provenance
}

/// The export gate.
pub struct Legitimizer;

impl Legitimizer {
    /// Decide an export and issue a permit exactly when it is accepted.
    pub fn gate_export_projection(context: ExportProjectionContext<'_>) -> (r: ExportGateDecision)
        ensures
            decision_matches(r.spec_decision(), context),
            r.spec_permit() is Some <==> r.spec_decision().legitimization == Legitimization::Accepted,
            r.spec_permit() matches Some(p) ==> p.spec_operation_id() == context.operation.operation_id@
                && p.spec_authority_source() == AuthoritySource::AutomationWorker,
    {
        let operation_id = context.operation.operation_id.clone();
        let decision = Self::adjudicate_export_projection(context);
        let permit = if decision.legitimization == Legitimization::Accepted {
            Some(ExportPermit { operation_id, authority_source: AuthoritySource::AutomationWorker })
        } else {
            None
        };
        ExportGateDecision { decision, permit }
    }

    /// Adjudicate an export and build the boundary-decision log payload.
    pub fn adjudicate_export_projection(context: ExportProjectionContext<'_>) -> (r: LegitimizerDecision)
        ensures
            decision_matches(r, context),
    {
        let adjudication = adjudicate(context.operation, context.effective_policy, context.authority_source);
        let reason = join_all(&adjudication.reasons, " ");
        let log_payload = CompartmentBoundaryDecidedPayload {
            compartment_ref: context.compartment_ref.clone(),
            member_evaluated: adjudication.member_evaluated,
            adjudication_result: adjudication.legitimization,
            actor_identity_ref: context.actor_identity_ref.clone(),
            authority_source: context.authority_source,
            reason,
            effective_time: context.effective_time,
            provenance: context.provenance.clone(),
        };
        LegitimizerDecision {
            legitimization: adjudication.legitimization,
            adjudication_reasons: adjudication.reasons,
            log_payload,
        }
    }
}


/// Law (deny by default): an export is accepted exactly when an automation worker
/// asks and the resolved policy explicitly permits external export; every other
/// authority is rejected.
pub proof fn lemma_accepts_only_worker_with_explicit_permission(
    op: Seq<char>,
    policy: Option<&PolicySummary>,
    a: AuthoritySource,
)
    ensures
        adjudication(op, policy, a).0 == Legitimization::Accepted <==> (a == AuthoritySource::AutomationWorker
            && (policy matches Some(p) && explicitly_permits(p))),
        a != AuthoritySource::AutomationWorker ==> adjudication(op, policy, a).0 == Legitimization::Rejected,
        policy is None ==> adjudication(op, policy, a).0 == Legitimization::Rejected,
{
}

/// Law: every decision gives at least one reason.
pub proof fn lemma_reasons_never_empty(op: Seq<char>, policy: Option<&PolicySummary>, a: AuthoritySource)
    ensures
        adjudication(op, policy, a).2.len() >= 1,
{
}

/// Law (no leaks): the decision depends only on the operation id, the policy and
/// the authority; an operation's kind, target, summary and payload never reach it.
pub proof fn lemma_decision_reads_only_operation_id(
    c1: ExportProjectionContext,
    c2: ExportProjectionContext,
    d1: LegitimizerDecision,
    d2: LegitimizerDecision,
)
    requires
        decision_matches(d1, c1),
        decision_matches(d2, c2),
        c1.operation.operation_id@ == c2.operation.operation_id@,
        c1.effective_policy == c2.effective_policy,
        c1.authority_source == c2.authority_source,
    ensures
        d1.legitimization == d2.legitimization,
        string_views(d1.adjudication_reasons@) == string_views(d2.adjudication_reasons@),
        d1.log_payload.reason@ == d2.log_payload.reason@,
        d1.log_payload.member_evaluated == d2.log_payload.member_evaluated,
{
}

} // verus!
