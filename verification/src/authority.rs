//! The closed vocabulary of authority sources.
use vstd::prelude::*;

verus! {

/// Who or what stands behind a recorded change.
#[derive(Debug, Clone, Copy, PartialEq, Eq, Hash, Structural)]
pub enum AuthoritySource {
    User,
    UserOverride,
    Delegated,
    AutomationWorker,
    Policy,
    System,
}

/// The wire spelling of an authority source.
pub open spec fn authority_wire(a: AuthoritySource) -> Seq<char> {
    match a {
        AuthoritySource::User => "user"@,
        AuthoritySource::UserOverride => "user_override"@,
        AuthoritySource::Delegated => "delegated"@,
        AuthoritySource::AutomationWorker => "automation_worker"@,
        AuthoritySource::Policy => "policy"@,
        AuthoritySource::System => "system"@,
    }
}

impl AuthoritySource {
    /// The wire spelling of this authority source.
    pub fn wire(self) -> (r: &'static str)
        ensures
            r@ == authority_wire(self),
    {
        match self {
            AuthoritySource::User => "user",
            AuthoritySource::UserOverride => "user_override",
            AuthoritySource::Delegated => "delegated",
            AuthoritySource::AutomationWorker => "automation_worker",
            AuthoritySource::Policy => "policy",
            AuthoritySource::System => "system",
        }
    }
}

} // verus!
