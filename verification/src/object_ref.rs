//! Typed references to admitted objects.
use vstd::prelude::*;

use crate::id_registry::ObjectType;
use crate::ids::UbuId;

verus! {

/// An identifier together with the object type it is expected to name.
#[derive(Debug, PartialEq, Eq)]
pub struct ObjectRef {
    pub id: UbuId,
    pub object_type: ObjectType,
}

impl Clone for ObjectRef {
    fn clone(&self) -> (r: ObjectRef)
        ensures
            r == *self,
    {
        ObjectRef { id: self.id.duplicate(), object_type: self.object_type }
    }
}

} // verus!
