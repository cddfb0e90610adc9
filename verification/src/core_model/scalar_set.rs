//! JSON scalars, their order, and sorted sets of them.
use vstd::prelude::*;

use crate::keyed::DeepCopy;
use crate::json::{is_scalar, JsonData, JsonNumber, JsonValue, NumberData};
use crate::text::{decimal, join, lemma_lex_transitive, lemma_lex_trichotomy, lex_less, str_eq, str_less, u64_decimal};

verus! {

/// A JSON scalar: null, a boolean, a number or a string.
#[derive(Debug)]
pub enum JsonScalar {
    Null,
    Bool(bool),
    Number(JsonNumber),
    String(String),
}

/// The mathematical form of a scalar.
pub enum ScalarData {
    Null,
    Bool(bool),
    Number(NumberData),
    String(Seq<char>),
}

/// The value was an array or an object, not a scalar.
#[derive(Debug, Clone, Copy, PartialEq, Eq)]
pub struct JsonScalarError;

impl View for JsonScalar {
    type V = ScalarData;

    open spec fn view(&self) -> ScalarData {
        match self {
            JsonScalar::Null => ScalarData::Null,
            JsonScalar::Bool(b) => ScalarData::Bool(*b),
            JsonScalar::Number(n) => ScalarData::Number(n@),
            JsonScalar::String(s) => ScalarData::String(s@),
        }
    }
}

/// The text serde_json prints for a number.
pub open spec fn number_text(n: NumberData) -> Seq<char> {
    match n {
        NumberData::PosInt(u) => decimal(u as nat),
        NumberData::NegInt(i) => if i < 0 {
            seq!['-'] + decimal((-i) as nat)
        } else {
            decimal(i as nat)
        },
        NumberData::Float { text, .. } => text,
    }
}

/// The variant rank of a scalar in the derived order: null, booleans, numbers, strings.
pub open spec fn scalar_rank(s: ScalarData) -> int {
    match s {
        ScalarData::Null => 0,
        ScalarData::Bool(_) => 1,
        ScalarData::Number(_) => 2,
        ScalarData::String(_) => 3,
    }
}

/// The text by which scalars of one rank are ordered: numbers by their printed
/// text, booleans with `false` first.
pub open spec fn scalar_text(s: ScalarData) -> Seq<char> {
    match s {
        ScalarData::Null => Seq::empty(),
        ScalarData::Bool(b) => if b {
            seq!['1']
        } else {
            seq!['0']
        },
        ScalarData::Number(n) => number_text(n),
        ScalarData::String(t) => t,
    }
}

/// Scalars equal in the derived `==`: numbers compare by their printed text.
pub open spec fn scalar_same(a: ScalarData, b: ScalarData) -> bool {
    scalar_rank(a) == scalar_rank(b) && scalar_text(a) == scalar_text(b)
}

/// `a < b` in the derived order of scalars.
pub open spec fn scalar_less(a: ScalarData, b: ScalarData) -> bool {
    scalar_rank(a) < scalar_rank(b) || (scalar_rank(a) == scalar_rank(b) && lex_less(
        scalar_text(a),
        scalar_text(b),
    ))
}

/// The scalar's JSON value.
pub open spec fn scalar_json(s: ScalarData) -> JsonData {
    match s {
        ScalarData::Null => JsonData::Null,
        ScalarData::Bool(b) => JsonData::Bool(b),
        ScalarData::Number(n) => JsonData::Number(n),
        ScalarData::String(t) => JsonData::String(t),
    }
}

/// The scalar that a scalar JSON value holds.
pub open spec fn json_scalar(d: JsonData) -> ScalarData {
    match d {
        JsonData::Bool(b) => ScalarData::Bool(b),
        JsonData::Number(n) => ScalarData::Number(n),
        JsonData::String(t) => ScalarData::String(t),
        _ => ScalarData::Null,
    }
}

/// The scalar order is a strict total order up to `scalar_same`.
pub proof fn lemma_scalar_order(a: ScalarData, b: ScalarData, c: ScalarData)
    ensures
        scalar_same(a, b) || scalar_less(a, b) || scalar_less(b, a),
        !(scalar_less(a, b) && scalar_less(b, a)),
        !scalar_less(a, a),
        scalar_same(a, b) ==> !scalar_less(a, b),
        scalar_less(a, b) && scalar_less(b, c) ==> scalar_less(a, c),
        scalar_same(a, b) && scalar_less(b, c) ==> scalar_less(a, c),
        scalar_less(a, b) && scalar_same(b, c) ==> scalar_less(a, c),
{
    lemma_lex_trichotomy(scalar_text(a), scalar_text(b));
    lemma_lex_trichotomy(scalar_text(a), scalar_text(a));
    if scalar_less(a, b) && scalar_less(b, c) && scalar_rank(a) == scalar_rank(b) && scalar_rank(b)
        == scalar_rank(c) {
        lemma_lex_transitive(scalar_text(a), scalar_text(b), scalar_text(c));
    }
}

/// Strictly increasing in the scalar order.
pub open spec fn scalars_sorted(s: Seq<ScalarData>) -> bool {
    forall|i: int, j: int| 0 <= i < j < s.len() ==> scalar_less(#[trigger] s[i], #[trigger] s[j])
}

/// Some member is `scalar_same` as `x`.
pub open spec fn scalars_contain(s: Seq<ScalarData>, x: ScalarData) -> bool {
    exists|i: int| 0 <= i < s.len() && scalar_same(#[trigger] s[i], x)
}

/// `s` with `x` added in order, unless an equal member is there already.
pub open spec fn sorted_insert(s: Seq<ScalarData>, x: ScalarData) -> Seq<ScalarData>
    decreases s.len(),
{
    if s.len() == 0 {
        seq![x]
    } else if scalar_less(s[0], x) {
        seq![s[0]] + sorted_insert(s.drop_first(), x)
    } else if scalar_same(s[0], x) {
        s
    } else {
        seq![x] + s
    }
}

/// `s` without its first member equal to `x`.
pub open spec fn sorted_remove(s: Seq<ScalarData>, x: ScalarData) -> Seq<ScalarData>
    decreases s.len(),
{
    if s.len() == 0 {
        s
    } else if scalar_same(s[0], x) {
        s.drop_first()
    } else {
        seq![s[0]] + sorted_remove(s.drop_first(), x)
    }
}

/// The views of a list of scalars.
pub open spec fn scalars_view(s: Seq<JsonScalar>) -> Seq<ScalarData> {
    s.map_values(|x: JsonScalar| x@)
}

impl JsonNumber {
    /// The text serde_json prints for this number.
    pub fn text(&self) -> (r: String)
        ensures
            r@ == number_text(self@),
    {
        match self {
            JsonNumber::PosInt(u) => u64_decimal(*u),
            JsonNumber::NegInt(i) => {
                if *i >= 0 {
                    u64_decimal(*i as u64)
                } else {
                    let magnitude: u64 = if *i == i64::MIN {
                        0x8000_0000_0000_0000
                    } else {
                        (-*i) as u64
                    };
                    let digits = u64_decimal(magnitude);
                    proof {
                        reveal_strlit("-");
                    }
                    join("-".to_owned(), digits.as_str())
                }
            },
            JsonNumber::Float { text, .. } => text.clone(),
        }
    }
}

impl JsonScalar {
    /// The scalar held by a scalar JSON value; arrays and objects are refused.
    pub fn try_from(value: &JsonValue) -> (r: Result<JsonScalar, JsonScalarError>)
        ensures
            r is Ok <==> is_scalar(value@),
            r matches Ok(s) ==> s@ == json_scalar(value@),
    {
        match value {
            JsonValue::Null => Ok(JsonScalar::Null),
            JsonValue::Bool(b) => Ok(JsonScalar::Bool(*b)),
            JsonValue::Number(n) => Ok(JsonScalar::Number(n.duplicate())),
            JsonValue::String(s) => Ok(JsonScalar::String(s.clone())),
            _ => Err(JsonScalarError),
        }
    }

    /// This scalar as a JSON value.
    pub fn to_json(&self) -> (r: JsonValue)
        ensures
            r@ == scalar_json(self@),
    {
        match self {
            JsonScalar::Null => JsonValue::Null,
            JsonScalar::Bool(b) => JsonValue::Bool(*b),
            JsonScalar::Number(n) => JsonValue::Number(n.duplicate()),
            JsonScalar::String(s) => JsonValue::String(s.clone()),
        }
    }

    /// A copy of this scalar.
    pub fn duplicate(&self) -> (r: JsonScalar)
        ensures
            r@ == self@,
    {
        match self {
            JsonScalar::Null => JsonScalar::Null,
            JsonScalar::Bool(b) => JsonScalar::Bool(*b),
            JsonScalar::Number(n) => JsonScalar::Number(n.duplicate()),
            JsonScalar::String(s) => JsonScalar::String(s.clone()),
        }
    }

    fn rank(&self) -> (r: u8)
        ensures
            r as int == scalar_rank(self@),
    {
        match self {
            JsonScalar::Null => 0,
            JsonScalar::Bool(_) => 1,
            JsonScalar::Number(_) => 2,
            JsonScalar::String(_) => 3,
        }
    }

    fn order_text(&self) -> (r: String)
        ensures
            r@ == scalar_text(self@),
    {
        match self {
            JsonScalar::Null => String::new(),
            JsonScalar::Bool(b) => {
                proof {
                    reveal_strlit("1");
                    reveal_strlit("0");
                }
                if *b {
                    "1".to_owned()
                } else {
                    "0".to_owned()
                }
            },
            JsonScalar::Number(n) => n.text(),
            JsonScalar::String(s) => s.clone(),
        }
    }

    /// Whether the two scalars are equal in the derived `==`.
    pub fn same_as(&self, other: &JsonScalar) -> (r: bool)
        ensures
            r == scalar_same(self@, other@),
    {
        self.rank() == other.rank() && str_eq(self.order_text().as_str(), other.order_text().as_str())
    }

    /// Whether `self < other` in the derived order.
    pub fn less_than(&self, other: &JsonScalar) -> (r: bool)
        ensures
            r == scalar_less(self@, other@),
    {
        let a = self.rank();
        let b = other.rank();
        if a != b {
            return a < b;
        }
        str_less(self.order_text().as_str(), other.order_text().as_str())
    }
}

impl PartialEq for JsonScalar {
    fn eq(&self, other: &Self) -> (r: bool) {
        self.same_as(other)
    }
}

impl vstd::std_specs::cmp::PartialEqSpecImpl for JsonScalar {
    open spec fn obeys_eq_spec() -> bool {
        true
    }

    open spec fn eq_spec(&self, other: &Self) -> bool {
        scalar_same(self@, other@)
    }
}

impl DeepCopy for ScalarSet {
    fn deep_copy(&self) -> (r: ScalarSet) {
        self.duplicate()
    }
}

impl Clone for JsonScalar {
    fn clone(&self) -> (r: JsonScalar)
        ensures
            r@ == self@,
    {
        self.duplicate()
    }
}

/// A set of scalars kept in ascending order, each at most once.
#[derive(Debug)]
pub struct ScalarSet {
    members: Vec<JsonScalar>,
}

impl View for ScalarSet {
    type V = Seq<ScalarData>;

    closed spec fn view(&self) -> Seq<ScalarData> {
        scalars_view(self.members@)
    }
}

impl ScalarSet {
    #[verifier::type_invariant]
    closed spec fn inv(&self) -> bool {
        scalars_sorted(scalars_view(self.members@))
    }

    pub fn new() -> (r: ScalarSet)
        ensures
            r@ == Seq::<ScalarData>::empty(),
    {
        let r = ScalarSet { members: Vec::new() };
        assert(r@ =~= Seq::<ScalarData>::empty());
        r
    }

    /// The members in ascending order.
    pub fn members(&self) -> (r: &[JsonScalar])
        ensures
            scalars_view(r@) == self@,
            scalars_sorted(self@),
    {
        proof {
            use_type_invariant(self);
        }
        self.members.as_slice()
    }

    pub fn len(&self) -> (r: usize)
        ensures
            r == self@.len(),
    {
        self.members.len()
    }

    pub fn is_empty(&self) -> (r: bool)
        ensures
            r == (self@.len() == 0),
    {
        self.members.len() == 0
    }

    /// A copy holding the same members.
    pub fn duplicate(&self) -> (r: ScalarSet)
        ensures
            r@ == self@,
    {
        proof {
            use_type_invariant(self);
        }
        let mut out: Vec<JsonScalar> = Vec::new();
        let mut i: usize = 0;
        while i < self.members.len()
            invariant
                i <= self.members@.len(),
                out@.len() == i,
                forall|j: int| 0 <= j < i ==> #[trigger] out@[j]@ == self.members@[j]@,
            decreases self.members@.len() - i,
        {
            out.push(self.members[i].duplicate());
            i = i + 1;
        }
        assert(scalars_view(out@) =~= scalars_view(self.members@));
        ScalarSet { members: out }
    }

    /// Whether a member equals `x`.
    pub fn contains(&self, x: &JsonScalar) -> (r: bool)
        ensures
            r == scalars_contain(self@, x@),
    {
        let mut i: usize = 0;
        while i < self.members.len()
            invariant
                i <= self.members@.len(),
                forall|j: int| 0 <= j < i ==> !scalar_same(#[trigger] self@[j], x@),
            decreases self.members@.len() - i,
        {
            if self.members[i].same_as(x) {
                assert(self@[i as int] == self.members@[i as int]@);
                return true;
            }
            i = i + 1;
        }
        false
    }

    /// Add `x` in order, unless an equal member is there already.
    pub fn insert(&mut self, x: JsonScalar)
        ensures
            final(self)@ == sorted_insert(old(self)@, x@),
    {
        proof {
            use_type_invariant(&*self);
        }
        let mut members: Vec<JsonScalar> = Vec::new();
        std::mem::swap(&mut members, &mut self.members);
        let ghost s = scalars_view(members@);
        let ghost n = s.len();
        let mut i: usize = 0;
        assert(s.subrange(0, 0) + s.subrange(0, n as int) =~= s);
        while i < members.len() && members[i].less_than(&x)
            invariant
                s == scalars_view(members@),
                n == s.len(),
                scalars_sorted(s),
                i <= n,
                forall|j: int| 0 <= j < i ==> scalar_less(#[trigger] s[j], x@),
                sorted_insert(s, x@) == s.subrange(0, i as int) + sorted_insert(s.subrange(i as int, n as int), x@),
            decreases n - i,
        {
            proof {
                let rest = s.subrange(i as int, n as int);
                assert(rest[0] == s[i as int]);
                assert(rest.drop_first() =~= s.subrange(i + 1, n as int));
                assert(s.subrange(0, i as int) + (seq![s[i as int]] + sorted_insert(s.subrange(i + 1, n as int), x@))
                    =~= s.subrange(0, i + 1) + sorted_insert(s.subrange(i + 1, n as int), x@));
            }
            i = i + 1;
        }
        if i < members.len() && members[i].same_as(&x) {
            proof {
                let rest = s.subrange(i as int, n as int);
                assert(rest[0] == s[i as int]);
                assert(s.subrange(0, i as int) + rest =~= s);
            }
        } else {
            proof {
                let rest = s.subrange(i as int, n as int);
                if i < n {
                    assert(rest[0] == s[i as int]);
                    lemma_scalar_order(s[i as int], x@, x@);
                    assert(scalar_less(x@, s[i as int]));
                }
            }
            members.insert(i, x);
            proof {
                let t = scalars_view(members@);
                let rest = s.subrange(i as int, n as int);
                assert(t =~= s.subrange(0, i as int) + (seq![t[i as int]] + rest));
                assert forall|a: int, b: int| 0 <= a < b < t.len() implies scalar_less(#[trigger] t[a], #[trigger] t[b]) by {
                    if b < i {
                        assert(t[a] == s[a] && t[b] == s[b]);
                    } else if b == i {
                        assert(t[a] == s[a]);
                    } else if a < i {
                        assert(t[a] == s[a] && t[b] == s[b - 1]);
                        lemma_scalar_order(s[a], t[i as int], s[b - 1]);
                        if b - 1 > i {
                            lemma_scalar_order(t[i as int], s[i as int], s[b - 1]);
                        }
                    } else if a == i {
                        assert(t[b] == s[b - 1]);
                        if b - 1 > i {
                            lemma_scalar_order(t[i as int], s[i as int], s[b - 1]);
                        }
                    } else {
                        assert(t[a] == s[a - 1] && t[b] == s[b - 1]);
                    }
                }
            }
        }
        self.members = members;
    }

    /// Take out the member equal to `x`, if any.
    pub fn remove(&mut self, x: &JsonScalar)
        ensures
            final(self)@ == sorted_remove(old(self)@, x@),
    {
        proof {
            use_type_invariant(&*self);
        }
        let mut members: Vec<JsonScalar> = Vec::new();
        std::mem::swap(&mut members, &mut self.members);
        let ghost s = scalars_view(members@);
        let ghost n = s.len();
        let mut i: usize = 0;
        assert(s.subrange(0, 0) + s.subrange(0, n as int) =~= s);
        while i < members.len() && !members[i].same_as(x)
            invariant
                s == scalars_view(members@),
                n == s.len(),
                i <= n,
                sorted_remove(s, x@) == s.subrange(0, i as int) + sorted_remove(s.subrange(i as int, n as int), x@),
            decreases n - i,
        {
            proof {
                let rest = s.subrange(i as int, n as int);
                assert(rest[0] == s[i as int]);
                assert(rest.drop_first() =~= s.subrange(i + 1, n as int));
                assert(s.subrange(0, i as int) + (seq![s[i as int]] + sorted_remove(s.subrange(i + 1, n as int), x@))
                    =~= s.subrange(0, i + 1) + sorted_remove(s.subrange(i + 1, n as int), x@));
            }
            i = i + 1;
        }
        if i < members.len() {
            proof {
                let rest = s.subrange(i as int, n as int);
                assert(rest[0] == s[i as int]);
                assert(rest.drop_first() =~= s.subrange(i + 1, n as int));
            }
            members.remove(i);
            proof {
                let t = scalars_view(members@);
                assert(t =~= s.subrange(0, i as int) + s.subrange(i + 1, n as int));
                assert forall|a: int, b: int| 0 <= a < b < t.len() implies scalar_less(#[trigger] t[a], #[trigger] t[b]) by {
                    let a2 = if a < i { a } else { a + 1 };
                    let b2 = if b < i { b } else { b + 1 };
                    assert(t[a] == s[a2] && t[b] == s[b2]);
                }
            }
        } else {
            proof {
                assert(s.subrange(i as int, n as int) =~= Seq::<ScalarData>::empty());
                assert(s.subrange(0, i as int) =~= s);
            }
        }
        self.members = members;
    }
}

} // verus!
