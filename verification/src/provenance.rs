//! Where a record came from and under which authority.
use vstd::prelude::*;

use crate::authority::AuthoritySource;
use crate::source_ref::SourceRef;
use crate::time::UbuTimestamp;

verus! {

#[derive(Debug, PartialEq, Eq)]
pub struct Provenance {
    pub created_at: UbuTimestamp,
    pub created_by: Option<String>,
    pub authority_source: AuthoritySource,
    pub source: Option<SourceRef>,
}

impl Clone for Provenance {
    fn clone(&self) -> (r: Provenance)
        ensures
            r == *self,
    {
        Provenance {
            created_at: self.created_at,
            created_by: match &self.created_by {
                Some(c) => Some(c.clone()),
                None => None,
            },
            authority_source: self.authority_source,
            source: match &self.source {
                Some(s) => Some(s.clone()),
                None => None,
            },
        }
    }
}

} // verus!
