//! JSON values as the library reads them. Numbers keep serde_json's three kinds;
//! a floating-point number is held by its binary64 pattern and the text that
//! serde_json prints for it. Contracts speak of the mathematical `JsonData`.
use vstd::prelude::*;

use crate::float_bits::{f64_bits_eq, f64_bits_equal, i64_to_f64_bits, nat_to_f64_bits, negated, u64_to_f64_bits};
use crate::keyed::DeepCopy;
use crate::text::str_eq;

verus! {

/// A JSON number: a non-negative integer, a negative integer, or a finite
/// floating-point number held by its binary64 pattern and printed text.
#[derive(Debug)]
pub enum JsonNumber {
    PosInt(u64),
    NegInt(i64),
    Float { bits: u64, text: String },
}

/// A JSON value. An object lists its members; their keys are distinct.
#[derive(Debug)]
pub enum JsonValue {
    Null,
    Bool(bool),
    Number(JsonNumber),
    String(String),
    Array(Vec<JsonValue>),
    Object(Vec<(String, JsonValue)>),
}

/// The mathematical form of a JSON number.
pub enum NumberData {
    PosInt(u64),
    NegInt(i64),
    Float { bits: u64, text: Seq<char> },
}

/// The mathematical form of a JSON value.
pub enum JsonData {
    Null,
    Bool(bool),
    Number(NumberData),
    String(Seq<char>),
    Array(Seq<JsonData>),
    Object(Seq<(Seq<char>, JsonData)>),
}

impl View for JsonNumber {
    type V = NumberData;

    open spec fn view(&self) -> NumberData {
        match self {
            JsonNumber::PosInt(u) => NumberData::PosInt(*u),
            JsonNumber::NegInt(i) => NumberData::NegInt(*i),
            JsonNumber::Float { bits, text } => NumberData::Float { bits: *bits, text: text@ },
        }
    }
}

/// The views of a list of values.
pub open spec fn values_view(s: Seq<JsonValue>) -> Seq<JsonData>
    decreases s, 0nat,
{
    if s.len() == 0 {
        Seq::empty()
    } else {
        values_view(s.drop_last()).push(json_view(s.last()))
    }
}

/// The views of a list of object members.
pub open spec fn members_view(s: Seq<(String, JsonValue)>) -> Seq<(Seq<char>, JsonData)>
    decreases s, 0nat,
{
    if s.len() == 0 {
        Seq::empty()
    } else {
        members_view(s.drop_last()).push((s.last().0@, json_view(s.last().1)))
    }
}

/// The view of a value.
pub open spec fn json_view(v: JsonValue) -> JsonData
    decreases v, 1nat,
{
    match v {
        JsonValue::Null => JsonData::Null,
        JsonValue::Bool(b) => JsonData::Bool(b),
        JsonValue::Number(n) => JsonData::Number(n@),
        JsonValue::String(s) => JsonData::String(s@),
        JsonValue::Array(xs) => JsonData::Array(values_view(xs@)),
        JsonValue::Object(ps) => JsonData::Object(members_view(ps@)),
    }
}

impl View for JsonValue {
    type V = JsonData;

    open spec fn view(&self) -> JsonData {
        json_view(*self)
    }
}

pub proof fn lemma_values_view(s: Seq<JsonValue>)
    ensures
        values_view(s).len() == s.len(),
        forall|i: int| 0 <= i < s.len() ==> #[trigger] values_view(s)[i] == json_view(s[i]),
    decreases s.len(),
{
    if s.len() > 0 {
        lemma_values_view(s.drop_last());
    }
}

pub proof fn lemma_members_view(s: Seq<(String, JsonValue)>)
    ensures
        members_view(s).len() == s.len(),
        forall|i: int|
            0 <= i < s.len() ==> #[trigger] members_view(s)[i] == (s[i].0@, json_view(s[i].1)),
    decreases s.len(),
{
    if s.len() > 0 {
        lemma_members_view(s.drop_last());
    }
}

/// The binary64 pattern of a number: what serde_json's `as_f64` gives.
pub open spec fn number_f64_bits(n: NumberData) -> nat {
    match n {
        NumberData::PosInt(u) => nat_to_f64_bits(u as nat),
        NumberData::NegInt(i) => if i >= 0 {
            nat_to_f64_bits(i as nat)
        } else {
            negated(nat_to_f64_bits((-i) as nat))
        },
        NumberData::Float { bits, .. } => bits as nat,
    }
}

/// serde_json's `==` on numbers: the same kind, and equal values; floating-point
/// numbers compare as binary64 values.
pub open spec fn number_eq(a: NumberData, b: NumberData) -> bool {
    match a {
        NumberData::PosInt(x) => b matches NumberData::PosInt(y) && x == y,
        NumberData::NegInt(x) => b matches NumberData::NegInt(y) && x == y,
        NumberData::Float { bits: x, .. } => b matches NumberData::Float { bits: y, .. } && f64_bits_eq(x, y),
    }
}

/// The first member of `qs` with key `k`.
pub open spec fn member_lookup(qs: Seq<(Seq<char>, JsonData)>, k: Seq<char>) -> Option<JsonData>
    decreases qs.len(),
{
    if qs.len() == 0 {
        None
    } else if qs[0].0 == k {
        Some(qs[0].1)
    } else {
        member_lookup(qs.drop_first(), k)
    }
}

/// Elementwise `==` from position `i` on.
pub open spec fn values_eq_from(xs: Seq<JsonData>, ys: Seq<JsonData>, i: nat) -> bool
    decreases xs, xs.len() - i,
{
    if i >= xs.len() || i >= ys.len() {
        true
    } else {
        json_eq(xs[i as int], ys[i as int]) && values_eq_from(xs, ys, i + 1)
    }
}

/// Every member of `ps` from position `i` on has a member of `qs` with its key
/// and an equal value.
pub open spec fn members_eq_from(ps: Seq<(Seq<char>, JsonData)>, qs: Seq<(Seq<char>, JsonData)>, i: nat) -> bool
    decreases ps, ps.len() - i,
{
    if i >= ps.len() {
        true
    } else {
        match member_lookup(qs, ps[i as int].0) {
            Some(w) => json_eq(ps[i as int].1, w) && members_eq_from(ps, qs, i + 1),
            None => false,
        }
    }
}

/// serde_json's `==` on values: arrays elementwise, objects as maps from key to
/// value, numbers by `number_eq`.
pub open spec fn json_eq(a: JsonData, b: JsonData) -> bool
    decreases a, 0nat,
{
    match a {
        JsonData::Null => b is Null,
        JsonData::Bool(x) => b matches JsonData::Bool(y) && x == y,
        JsonData::Number(x) => b matches JsonData::Number(y) && number_eq(x, y),
        JsonData::String(x) => b matches JsonData::String(y) && x == y,
        JsonData::Array(xs) => match b {
            JsonData::Array(ys) => xs.len() == ys.len() && values_eq_from(xs, ys, 0),
            _ => false,
        },
        JsonData::Object(ps) => match b {
            JsonData::Object(qs) => ps.len() == qs.len() && members_eq_from(ps, qs, 0),
            _ => false,
        },
    }
}

/// A scalar: null, a boolean, a number or a string.
pub open spec fn is_scalar(d: JsonData) -> bool {
    !(d is Array) && !(d is Object)
}

impl JsonNumber {
    /// A copy of this number.
    pub fn duplicate(&self) -> (r: JsonNumber)
        ensures
            r@ == self@,
    {
        match self {
            JsonNumber::PosInt(u) => JsonNumber::PosInt(*u),
            JsonNumber::NegInt(i) => JsonNumber::NegInt(*i),
            JsonNumber::Float { bits, text } => JsonNumber::Float { bits: *bits, text: text.clone() },
        }
    }

    /// The binary64 pattern of this number, as serde_json's `as_f64` gives it.
    pub fn as_f64_bits(&self) -> (r: u64)
        ensures
            r == number_f64_bits(self@),
    {
        match self {
            JsonNumber::PosInt(u) => u64_to_f64_bits(*u),
            JsonNumber::NegInt(i) => i64_to_f64_bits(*i),
            JsonNumber::Float { bits, .. } => *bits,
        }
    }

    /// serde_json's `==` on numbers.
    pub fn equals(&self, other: &JsonNumber) -> (r: bool)
        ensures
            r == number_eq(self@, other@),
    {
        match (self, other) {
            (JsonNumber::PosInt(x), JsonNumber::PosInt(y)) => *x == *y,
            (JsonNumber::NegInt(x), JsonNumber::NegInt(y)) => *x == *y,
            (JsonNumber::Float { bits: x, .. }, JsonNumber::Float { bits: y, .. }) => f64_bits_equal(*x, *y),
            _ => false,
        }
    }
}

impl JsonValue {
    /// A deep copy of this value.
    #[verifier::loop_isolation(false)]
    pub fn duplicate(&self) -> (r: JsonValue)
        ensures
            r@ == self@,
        decreases self,
    {
        match self {
            JsonValue::Null => JsonValue::Null,
            JsonValue::Bool(b) => JsonValue::Bool(*b),
            JsonValue::Number(n) => JsonValue::Number(n.duplicate()),
            JsonValue::String(s) => JsonValue::String(s.clone()),
            JsonValue::Array(xs) => {
                let mut out: Vec<JsonValue> = Vec::new();
                let mut i: usize = 0;
                while i < xs.len()
                    invariant
                        i <= xs@.len(),
                        out@.len() == i,
                        forall|j: int| 0 <= j < i ==> #[trigger] json_view(out@[j]) == json_view(xs@[j]),
                    decreases xs@.len() - i,
                {
                    proof {
                        vstd::std_specs::vec::axiom_vec_index_decreases(*xs, i as int);
                    }
                    let d = xs[i].duplicate();
                    out.push(d);
                    i = i + 1;
                }
                proof {
                    lemma_values_view(out@);
                    lemma_values_view(xs@);
                    assert(values_view(out@) =~= values_view(xs@));
                }
                JsonValue::Array(out)
            },
            JsonValue::Object(ps) => {
                let mut out: Vec<(String, JsonValue)> = Vec::new();
                let mut i: usize = 0;
                while i < ps.len()
                    invariant
                        i <= ps@.len(),
                        out@.len() == i,
                        forall|j: int|
                            0 <= j < i ==> #[trigger] out@[j].0@ == ps@[j].0@ && json_view(out@[j].1) == json_view(
                                ps@[j].1,
                            ),
                    decreases ps@.len() - i,
                {
                    proof {
                        vstd::std_specs::vec::axiom_vec_index_decreases(*ps, i as int);
                    }
                    let d = ps[i].1.duplicate();
                    out.push((ps[i].0.clone(), d));
                    i = i + 1;
                }
                proof {
                    lemma_members_view(out@);
                    lemma_members_view(ps@);
                    assert(members_view(out@) =~= members_view(ps@));
                }
                JsonValue::Object(out)
            },
        }
    }

    /// Whether this value is a scalar.
    pub fn is_scalar(&self) -> (r: bool)
        ensures
            r == is_scalar(self@),
    {
        match self {
            JsonValue::Array(_) | JsonValue::Object(_) => false,
            _ => true,
        }
    }
}

/// The first member of `ps` with key `k`.
fn find_member<'a>(ps: &'a Vec<(String, JsonValue)>, k: &str) -> (r: Option<&'a JsonValue>)
    ensures
        match r {
            Some(v) => member_lookup(members_view(ps@), k@) == Some(json_view(*v)),
            None => member_lookup(members_view(ps@), k@) is None,
        },
{
    let mut i: usize = 0;
    proof {
        lemma_members_view(ps@);
        assert(members_view(ps@).skip(0) =~= members_view(ps@));
    }
    while i < ps.len()
        invariant
            i <= ps@.len(),
            members_view(ps@).len() == ps@.len(),
            forall|j: int| 0 <= j < ps@.len() ==> #[trigger] members_view(ps@)[j] == (ps@[j].0@, json_view(ps@[j].1)),
            member_lookup(members_view(ps@), k@) == member_lookup(members_view(ps@).skip(i as int), k@),
        decreases ps@.len() - i,
    {
        let ghost rest = members_view(ps@).skip(i as int);
        assert(rest[0] == members_view(ps@)[i as int]);
        if str_eq(ps[i].0.as_str(), k) {
            return Some(&ps[i].1);
        }
        assert(rest.drop_first() =~= members_view(ps@).skip(i + 1));
        i = i + 1;
    }
    None
}

/// serde_json's `==` on values.
#[verifier::loop_isolation(false)]
pub fn json_equal(a: &JsonValue, b: &JsonValue) -> (r: bool)
    ensures
        r == json_eq(a@, b@),
    decreases a,
{
    match (a, b) {
        (JsonValue::Null, JsonValue::Null) => true,
        (JsonValue::Bool(x), JsonValue::Bool(y)) => *x == *y,
        (JsonValue::Number(x), JsonValue::Number(y)) => x.equals(y),
        (JsonValue::String(x), JsonValue::String(y)) => str_eq(x.as_str(), y.as_str()),
        (JsonValue::Array(xs), JsonValue::Array(ys)) => {
            proof {
                lemma_values_view(xs@);
                lemma_values_view(ys@);
            }
            if xs.len() != ys.len() {
                return false;
            }
            let ghost vx = values_view(xs@);
            let ghost vy = values_view(ys@);
            let mut i: usize = 0;
            while i < xs.len()
                invariant
                    i <= xs@.len(),
                    xs@.len() == ys@.len(),
                    vx == values_view(xs@),
                    vy == values_view(ys@),
                    vx.len() == xs@.len(),
                    vy.len() == ys@.len(),
                    forall|j: int| 0 <= j < xs@.len() ==> #[trigger] vx[j] == json_view(xs@[j]),
                    forall|j: int| 0 <= j < ys@.len() ==> #[trigger] vy[j] == json_view(ys@[j]),
                    values_eq_from(vx, vy, 0) == values_eq_from(vx, vy, i as nat),
                decreases xs@.len() - i,
            {
                proof {
                    vstd::std_specs::vec::axiom_vec_index_decreases(*xs, i as int);
                }
                if !json_equal(&xs[i], &ys[i]) {
                    return false;
                }
                i = i + 1;
            }
            true
        },
        (JsonValue::Object(ps), JsonValue::Object(qs)) => {
            proof {
                lemma_members_view(ps@);
                lemma_members_view(qs@);
            }
            if ps.len() != qs.len() {
                return false;
            }
            let ghost mp = members_view(ps@);
            let ghost mq = members_view(qs@);
            let mut i: usize = 0;
            while i < ps.len()
                invariant
                    i <= ps@.len(),
                    ps@.len() == qs@.len(),
                    mp == members_view(ps@),
                    mq == members_view(qs@),
                    mp.len() == ps@.len(),
                    forall|j: int| 0 <= j < ps@.len() ==> #[trigger] mp[j] == (ps@[j].0@, json_view(ps@[j].1)),
                    members_eq_from(mp, mq, 0) == members_eq_from(mp, mq, i as nat),
                decreases ps@.len() - i,
            {
                proof {
                    vstd::std_specs::vec::axiom_vec_index_decreases(*ps, i as int);
                }
                match find_member(qs, ps[i].0.as_str()) {
                    Some(w) => {
                        if !json_equal(&ps[i].1, w) {
                            return false;
                        }
                    },
                    None => {
                        return false;
                    },
                }
                i = i + 1;
            }
            true
        },
        _ => false,
    }
}

impl PartialEq for JsonNumber {
    fn eq(&self, other: &Self) -> (r: bool) {
        self.equals(other)
    }
}

impl vstd::std_specs::cmp::PartialEqSpecImpl for JsonNumber {
    open spec fn obeys_eq_spec() -> bool {
        true
    }

    open spec fn eq_spec(&self, other: &Self) -> bool {
        number_eq(self@, other@)
    }
}

impl PartialEq for JsonValue {
    fn eq(&self, other: &Self) -> (r: bool) {
        json_equal(self, other)
    }
}

impl vstd::std_specs::cmp::PartialEqSpecImpl for JsonValue {
    open spec fn obeys_eq_spec() -> bool {
        true
    }

    open spec fn eq_spec(&self, other: &Self) -> bool {
        json_eq(self@, other@)
    }
}

impl DeepCopy for JsonValue {
    fn deep_copy(&self) -> (r: JsonValue) {
        self.duplicate()
    }
}

/// A copy of a list of object members.
pub fn duplicate_members(ps: &Vec<(String, JsonValue)>) -> (r: Vec<(String, JsonValue)>)
    ensures
        members_view(r@) == members_view(ps@),
{
    let mut out: Vec<(String, JsonValue)> = Vec::new();
    let mut i: usize = 0;
    while i < ps.len()
        invariant
            i <= ps@.len(),
            out@.len() == i,
            forall|j: int|
                0 <= j < i ==> #[trigger] out@[j].0@ == ps@[j].0@ && json_view(out@[j].1) == json_view(ps@[j].1),
        decreases ps@.len() - i,
    {
        let d = ps[i].1.duplicate();
        out.push((ps[i].0.clone(), d));
        i = i + 1;
    }
    proof {
        lemma_members_view(out@);
        lemma_members_view(ps@);
        assert(members_view(out@) =~= members_view(ps@));
    }
    out
}

impl Clone for JsonValue {
    fn clone(&self) -> (r: JsonValue)
        ensures
            r@ == self@,
    {
        self.duplicate()
    }
}

impl Clone for JsonNumber {
    fn clone(&self) -> (r: JsonNumber)
        ensures
            r@ == self@,
    {
        self.duplicate()
    }
}

} // verus!
