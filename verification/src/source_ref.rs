//! References to objects of outside sources (an issue, a calendar entry, ...).
use vstd::prelude::*;

verus! {

/// An outside source and the identifier it gives the referenced object.
#[derive(Debug, PartialEq, Eq)]
pub struct SourceRef {
    pub source_kind: String,
    pub source_id: String,
    pub url: Option<String>,
}

impl Clone for SourceRef {
    fn clone(&self) -> (r: SourceRef)
        ensures
            r == *self,
    {
        SourceRef {
            source_kind: self.source_kind.clone(),
            source_id: self.source_id.clone(),
            url: match &self.url {
                Some(u) => Some(u.clone()),
                None => None,
            },
        }
    }
}

} // verus!
