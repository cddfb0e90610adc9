//! Compartment labels: non-empty names compared by their exact text.
use vstd::prelude::*;

use crate::errors::UbuError;

verus! {

/// The name of a Compartment; never empty, never trimmed or case-folded.
#[derive(Debug)]
pub struct CompartmentLabel(String);

impl View for CompartmentLabel {
    type V = Seq<char>;

    closed spec fn view(&self) -> Seq<char> {
        self.0@
    }
}

impl CompartmentLabel {
    #[verifier::type_invariant]
    closed spec fn inv(&self) -> bool {
        self.0@.len() > 0
    }

    /// Accept any non-empty label.
    pub fn parse(value: &str) -> (r: Result<CompartmentLabel, UbuError>)
        ensures
            r is Ok <==> value@.len() > 0,
            r matches Ok(l) ==> l@ == value@,
            r matches Err(e) ==> e matches UbuError::InvalidCompartmentLabel { value: v } && v@
                == value@,
    {
        if value.is_empty() {
            return Err(UbuError::InvalidCompartmentLabel { value: value.to_owned() });
        }
        Ok(CompartmentLabel(value.to_owned()))
    }

    pub fn as_str(&self) -> (r: &str)
        ensures
            r@ == self@,
            self@.len() > 0,
    {
        proof {
            use_type_invariant(self);
        }
        self.0.as_str()
    }

    /// Whether two labels hold the same text.
    pub fn same_as(&self, other: &CompartmentLabel) -> (r: bool)
        ensures
            r == (self@ == other@),
    {
        self.0 == other.0
    }
}

impl Clone for CompartmentLabel {
    fn clone(&self) -> (r: CompartmentLabel)
        ensures
            r@ == self@,
    {
        proof {
            use_type_invariant(self);
        }
        CompartmentLabel(self.0.clone())
    }
}

impl PartialEq for CompartmentLabel {
    fn eq(&self, other: &Self) -> (r: bool) {
        self.0 == other.0
    }
}

impl vstd::std_specs::cmp::PartialEqSpecImpl for CompartmentLabel {
    open spec fn obeys_eq_spec() -> bool {
        true
    }

    open spec fn eq_spec(&self, other: &Self) -> bool {
        self@ == other@
    }
}

impl Eq for CompartmentLabel {}

} // verus!
