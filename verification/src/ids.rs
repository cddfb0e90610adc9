//! Prefixed UbU identifiers: a registered prefix followed by a simple UUIDv7.
use vstd::prelude::*;
use vstd::string::StrSliceExecFns;

use crate::errors::UbuError;
use crate::foreign::{id_shape, is_lower_alpha, regex_is_match, uuid_v7_simple, uuid_v7_simple_text, UBU_ID_PATTERN};
use crate::id_registry::{
    lemma_prefix_round_trip, object_type_for_prefix, object_type_name, prefix_for, prefix_of,
    reveal_prefixes, type_for_prefix, ObjectType,
};
use crate::text::join;

verus! {

/// The prefix of an identifier-shaped text: everything before its UUID digits.
pub open spec fn id_prefix_part(s: Seq<char>) -> Seq<char> {
    s.subrange(0, s.len() - 32)
}

/// A text that `UbuId::parse` accepts.
pub open spec fn valid_ubu_id(s: Seq<char>) -> bool {
    id_shape(s) && type_for_prefix(id_prefix_part(s)) is Some
}

/// The object type that a valid identifier names.
pub open spec fn id_object_type(s: Seq<char>) -> ObjectType {
    type_for_prefix(id_prefix_part(s))->0
}

/// A validated identifier; its text is always accepted by `UbuId::parse`.
#[derive(Debug)]
pub struct UbuId(String);

impl View for UbuId {
    type V = Seq<char>;

    closed spec fn view(&self) -> Seq<char> {
        self.0@
    }
}

impl UbuId {
    #[verifier::type_invariant]
    closed spec fn inv(&self) -> bool {
        valid_ubu_id(self.0@)
    }

    /// Accept a registered-prefix identifier, or say which rule it breaks.
    pub fn parse(value: &str) -> (r: Result<UbuId, UbuError>)
        ensures
            r is Ok <==> valid_ubu_id(value@),
            r matches Ok(id) ==> id@ == value@,
            !id_shape(value@) ==> (r matches Err(UbuError::InvalidId { value: v }) && v@ == value@),
            id_shape(value@) && type_for_prefix(id_prefix_part(value@)) is None ==> (r matches Err(
                UbuError::UnknownIdPrefix { prefix: p },
            ) && p@ == id_prefix_part(value@)),
    {
        let shaped = regex_is_match(UBU_ID_PATTERN, value);
        match shaped {
            Some(true) => {},
            _ => {
                return Err(UbuError::InvalidId { value: value.to_owned() });
            },
        }
        let n = value.unicode_len();
        let prefix = value.substring_char(0, n - 32);
        if object_type_for_prefix(prefix).is_none() {
            return Err(UbuError::UnknownIdPrefix { prefix: prefix.to_owned() });
        }
        Ok(UbuId(value.to_owned()))
    }

    /// A fresh identifier for `object_type`: its prefix and a new UUIDv7.
    pub fn new(object_type: ObjectType) -> (r: UbuId)
        ensures
            valid_ubu_id(r@),
            id_object_type(r@) == object_type,
            id_prefix_part(r@) == prefix_of(object_type),
    {
        let suffix = uuid_v7_simple();
        let prefix = prefix_for(object_type);
        let value = prefix.to_owned().concat(suffix.as_str());
        proof {
            lemma_new_names_its_type(object_type, suffix@);
            assert(value@ =~= prefix_of(object_type) + suffix@);
            let v = value@;
            assert(v.subrange(v.len() - 32, v.len() as int) =~= suffix@);
            assert(id_prefix_part(v) =~= prefix_of(object_type));
        }
        UbuId(value)
    }

    pub fn as_str(&self) -> (r: &str)
        ensures
            r@ == self@,
            valid_ubu_id(self@),
    {
        proof {
            use_type_invariant(self);
        }
        self.0.as_str()
    }

    /// The object type named by this identifier's prefix.
    pub fn object_type(&self) -> (r: ObjectType)
        ensures
            r == id_object_type(self@),
            valid_ubu_id(self@),
    {
        proof {
            use_type_invariant(self);
        }
        let n = self.0.as_str().unicode_len();
        let prefix = self.0.as_str().substring_char(0, n - 32);
        match object_type_for_prefix(prefix) {
            Some(t) => t,
            None => {
                proof {
                    assert(false);
                }
                ObjectType::Task
            },
        }
    }

    /// The registered prefix of this identifier's object type.
    pub fn prefix(&self) -> (r: &'static str)
        ensures
            r@ == prefix_of(id_object_type(self@)),
    {
        prefix_for(self.object_type())
    }

    /// `Ok` exactly when this identifier names an object of type `expected`.
    pub fn require_object_type(&self, expected: ObjectType) -> (r: Result<(), UbuError>)
        ensures
            r is Ok <==> id_object_type(self@) == expected,
            r matches Err(e) ==> e matches UbuError::WrongIdObjectType { id, expected: x, actual: a }
                && id@ == self@ && x@ == object_type_name(expected)
                && a@ == object_type_name(id_object_type(self@)),
    {
        let actual = self.object_type();
        if actual == expected {
            return Ok(());
        }
        Err(
            UbuError::WrongIdObjectType {
                id: self.0.clone(),
                expected: expected.as_str(),
                actual: actual.as_str(),
            },
        )
    }

    /// Whether two identifiers hold the same text.
    pub fn same_as(&self, other: &UbuId) -> (r: bool)
        ensures
            r == (self@ == other@),
    {
        self.0 == other.0
    }

    /// A copy holding the same text.
    pub fn duplicate(&self) -> (r: UbuId)
        ensures
            r == *self,
    {
        proof {
            use_type_invariant(self);
        }
        UbuId(self.0.clone())
    }
}

impl Clone for UbuId {
    fn clone(&self) -> (r: UbuId)
        ensures
            r@ == self@,
    {
        self.duplicate()
    }
}

impl PartialEq for UbuId {
    fn eq(&self, other: &Self) -> (r: bool) {
        self.0 == other.0
    }
}

impl vstd::std_specs::cmp::PartialEqSpecImpl for UbuId {
    open spec fn obeys_eq_spec() -> bool {
        true
    }

    open spec fn eq_spec(&self, other: &Self) -> bool {
        self@ == other@
    }
}

impl Eq for UbuId {}

/// Every registered prefix is lowercase letters followed by one underscore.
pub proof fn lemma_prefix_shape(t: ObjectType)
    ensures
        prefix_of(t).len() >= 2,
        prefix_of(t)[prefix_of(t).len() - 1] == '_',
        forall|i: int| 0 <= i < prefix_of(t).len() - 1 ==> is_lower_alpha(#[trigger] prefix_of(t)[i]),
{
    reveal_prefixes();
}

/// Law: a fresh identifier's prefix names the type it was made for.
pub proof fn lemma_new_names_its_type(t: ObjectType, s: Seq<char>)
    requires
        uuid_v7_simple_text(s),
    ensures
        valid_ubu_id(prefix_of(t) + s),
        id_object_type(prefix_of(t) + s) == t,
{
    lemma_prefix_shape(t);
    lemma_prefix_round_trip(t);
    let v = prefix_of(t) + s;
    let p = prefix_of(t);
    assert(v.subrange(v.len() - 32, v.len() as int) =~= s);
    assert(id_prefix_part(v) =~= p);
    assert forall|i: int| 0 <= i < v.len() - 33 implies is_lower_alpha(#[trigger] v[i]) by {
        assert(v[i] == p[i]);
    }
    assert(v[v.len() - 33] == p[p.len() - 1]);
}

} // verus!
