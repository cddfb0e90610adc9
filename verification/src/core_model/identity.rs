//! The kinds of identity that can be assigned work.
use vstd::prelude::*;

verus! {

#[derive(Debug, Clone, Copy, PartialEq, Eq, Hash, Structural)]
pub enum IdentityKind {
    Human,
    Agent,
    Service,
}

} // verus!
