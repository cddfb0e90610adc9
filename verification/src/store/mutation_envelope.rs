//! Canonical mutation metadata, independent of any store writer or call site.
use vstd::prelude::*;

use crate::authority::AuthoritySource;
use crate::errors::UbuError;
use crate::foreign::{id_shape, is_digit, uuid_v7_simple, uuid_v7_simple_text};
use crate::id_registry::ObjectType;
use crate::ids::{id_object_type, id_prefix_part, valid_ubu_id, UbuId};
use crate::json::JsonValue;
use crate::json_text::{canonical_text, json_wf, write_canonical};
use crate::keyed::{entries_map, key_index, keys_distinct, lemma_key_index, KeyedList};
use vstd::utf8::encode_utf8;
use crate::text::{chars_of, decimal, join, str_eq, u64_decimal};
use crate::time::UbuTimestamp;

verus! {

/// Stable operator-registered device identifier; only emptiness is forbidden.
#[derive(Debug, Hash)]
pub struct DeviceId(String);

impl View for DeviceId {
    type V = Seq<char>;

    closed spec fn view(&self) -> Seq<char> {
        self.0@
    }
}

impl DeviceId {
    #[verifier::type_invariant]
    closed spec fn inv(&self) -> bool {
        self.0@.len() > 0
    }

    /// Accept any non-empty identifier; whitespace is kept as given.
    pub fn parse(value: &str) -> (r: Result<DeviceId, UbuError>)
        ensures
            r is Ok <==> value@.len() > 0,
            r matches Ok(d) ==> d@ == value@,
            r matches Err(e) ==> e == UbuError::EmptyDeviceId,
    {
        if value.is_empty() {
            return Err(UbuError::EmptyDeviceId);
        }
        Ok(DeviceId(value.to_owned()))
    }

    pub fn as_str(&self) -> (r: &str)
        ensures
            r@ == self@,
            self@.len() > 0,
    {
        proof {
            use_type_invariant(self);
        }
        self.0.as_str()
    }

    pub fn same_as(&self, other: &DeviceId) -> (r: bool)
        ensures
            r == (self@ == other@),
    {
        self.0 == other.0
    }

    /// A fresh identifier for a new registration: `dev_` and a new UUIDv7.
    pub fn generate() -> (r: DeviceId)
        ensures
            r@.len() == 36,
            r@.subrange(0, 4) == "dev_"@,
            uuid_v7_simple_text(r@.subrange(4, 36)),
    {
        let suffix = uuid_v7_simple();
        let value = join("dev_".to_owned(), suffix.as_str());
        proof {
            reveal_strlit("dev_");
            assert(value@.subrange(0, 4) =~= "dev_"@);
            assert(value@.subrange(4, 36) =~= suffix@);
        }
        DeviceId(value)
    }
}

impl Clone for DeviceId {
    fn clone(&self) -> (r: DeviceId)
        ensures
            r == *self,
    {
        proof {
            use_type_invariant(self);
        }
        DeviceId(self.0.clone())
    }
}

impl PartialEq for DeviceId {
    fn eq(&self, other: &Self) -> (r: bool) {
        self.0 == other.0
    }
}

impl vstd::std_specs::cmp::PartialEqSpecImpl for DeviceId {
    open spec fn obeys_eq_spec() -> bool {
        true
    }

    open spec fn eq_spec(&self, other: &Self) -> bool {
        self@ == other@
    }
}

impl Eq for DeviceId {}

/// A non-empty key scoped to its origin device.
#[derive(Debug, Hash)]
pub struct IdempotencyKey(String);

impl View for IdempotencyKey {
    type V = Seq<char>;

    closed spec fn view(&self) -> Seq<char> {
        self.0@
    }
}

impl IdempotencyKey {
    #[verifier::type_invariant]
    closed spec fn inv(&self) -> bool {
        self.0@.len() > 0
    }

    pub fn parse(value: &str) -> (r: Result<IdempotencyKey, UbuError>)
        ensures
            r is Ok <==> value@.len() > 0,
            r matches Ok(k) ==> k@ == value@,
            r matches Err(e) ==> e == UbuError::EmptyIdempotencyKey,
    {
        if value.is_empty() {
            return Err(UbuError::EmptyIdempotencyKey);
        }
        Ok(IdempotencyKey(value.to_owned()))
    }

    pub fn as_str(&self) -> (r: &str)
        ensures
            r@ == self@,
            self@.len() > 0,
    {
        proof {
            use_type_invariant(self);
        }
        self.0.as_str()
    }
}

impl Clone for IdempotencyKey {
    fn clone(&self) -> (r: IdempotencyKey)
        ensures
            r == *self,
    {
        proof {
            use_type_invariant(self);
        }
        IdempotencyKey(self.0.clone())
    }
}

impl PartialEq for IdempotencyKey {
    fn eq(&self, other: &Self) -> (r: bool) {
        self.0 == other.0
    }
}

impl vstd::std_specs::cmp::PartialEqSpecImpl for IdempotencyKey {
    open spec fn obeys_eq_spec() -> bool {
        true
    }

    open spec fn eq_spec(&self, other: &Self) -> bool {
        self@ == other@
    }
}

impl Eq for IdempotencyKey {}

/// An object precondition: a version `v0`, `v1`, ... or `absent`.
#[derive(Debug, Clone, Copy, PartialEq, Eq, Hash, Structural)]
pub enum VersionRef {
    Version(u64),
    Absent,
}

/// The value of a run of decimal digits.
pub open spec fn digits_value(d: Seq<char>) -> nat
    decreases d.len(),
{
    if d.len() == 0 {
        0
    } else {
        digits_value(d.drop_last()) * 10 + (d.last() as int - '0' as int) as nat
    }
}

/// Digits of a version: non-empty ASCII digits without a leading zero (but `0`).
pub open spec fn canonical_digits(d: Seq<char>) -> bool {
    &&& d.len() > 0
    &&& forall|i: int| 0 <= i < d.len() ==> is_digit(#[trigger] d[i])
    &&& (d.len() == 1 || d[0] != '0')
}

/// The version reference a wire string spells, if any.
pub open spec fn version_ref_of(s: Seq<char>) -> Option<VersionRef> {
    if s == "absent"@ {
        Some(VersionRef::Absent)
    } else if s.len() >= 2 && s[0] == 'v' && canonical_digits(s.drop_first()) && digits_value(s.drop_first())
        <= u64::MAX {
        Some(VersionRef::Version(digits_value(s.drop_first()) as u64))
    } else {
        None
    }
}

/// The wire spelling of a version reference.
pub open spec fn version_ref_wire(v: VersionRef) -> Seq<char> {
    match v {
        VersionRef::Version(n) => seq!['v'] + decimal(n as nat),
        VersionRef::Absent => "absent"@,
    }
}

impl VersionRef {
    /// Read the wire spelling; anything but the canonical grammar is refused.
    #[verifier::loop_isolation(false)]
    pub fn parse_wire(value: &str) -> (r: Result<VersionRef, UbuError>)
        ensures
            match version_ref_of(value@) {
                Some(v) => r == Ok::<VersionRef, UbuError>(v),
                None => r matches Err(UbuError::InvalidVersionRef { value: x }) && x@ == value@,
            },
    {
        if str_eq(value, "absent") {
            return Ok(VersionRef::Absent);
        }
        proof {
            reveal_strlit("absent");
        }
        let chars = chars_of(value);
        if chars.len() < 2 || chars[0] != 'v' || (chars.len() > 2 && chars[1] == '0') {
            return Err(UbuError::InvalidVersionRef { value: value.to_owned() });
        }
        let ghost d = value@.drop_first();
        let mut n: u64 = 0;
        let mut i: usize = 1;
        while i < chars.len()
            invariant
                chars@ == value@,
                d == value@.drop_first(),
                1 <= i <= chars@.len(),
                chars@.len() >= 2,
                forall|k: int| 0 <= k < i - 1 ==> is_digit(#[trigger] d[k]),
                n as nat == digits_value(d.subrange(0, i - 1)),
            decreases chars@.len() - i,
        {
            let c = chars[i];
            if !('0' <= c && c <= '9') {
                assert(!is_digit(d[i - 1]));
                return Err(UbuError::InvalidVersionRef { value: value.to_owned() });
            }
            let digit = (c as u32 - '0' as u32) as u64;
            assert(d.subrange(0, i as int).drop_last() =~= d.subrange(0, i - 1));
            match n.checked_mul(10) {
                Some(m) => match m.checked_add(digit) {
                    Some(x) => {
                        n = x;
                    },
                    None => {
                        proof {
                            lemma_digits_value_monotone(d, i as int, d.len() as int);
                            assert(d.subrange(0, d.len() as int) =~= d);
                        }
                        return Err(UbuError::InvalidVersionRef { value: value.to_owned() });
                    },
                },
                None => {
                    proof {
                        lemma_digits_value_monotone(d, i as int, d.len() as int);
                        assert(d.subrange(0, d.len() as int) =~= d);
                    }
                    return Err(UbuError::InvalidVersionRef { value: value.to_owned() });
                },
            }
            i = i + 1;
        }
        assert(d.subrange(0, d.len() as int) =~= d);
        Ok(VersionRef::Version(n))
    }

    /// The wire spelling: `v` and the decimal version, or `absent`.
    pub fn to_wire(&self) -> (r: String)
        ensures
            r@ == version_ref_wire(*self),
    {
        match self {
            VersionRef::Version(n) => {
                proof {
                    reveal_strlit("v");
                }
                join("v".to_owned(), u64_decimal(*n).as_str())
            },
            VersionRef::Absent => "absent".to_owned(),
        }
    }
}

proof fn lemma_digits_value_monotone(d: Seq<char>, i: int, j: int)
    requires
        0 <= i <= j <= d.len(),
    ensures
        digits_value(d.subrange(0, i)) <= digits_value(d.subrange(0, j)),
    decreases j - i,
{
    if i < j {
        lemma_digits_value_monotone(d, i, j - 1);
        assert(d.subrange(0, j).drop_last() =~= d.subrange(0, j - 1));
    }
}


pub(crate) proof fn lemma_digits_of_decimal(n: nat)
    ensures
        canonical_digits(decimal(n)),
        digits_value(decimal(n)) == n,
        n >= 1 ==> decimal(n)[0] != '0',
    decreases n,
{
    if n < 10 {
        assert(decimal(n) == seq![crate::text::digit_char(n)]);
        assert(decimal(n).drop_last() =~= Seq::<char>::empty());
        assert((crate::text::digit_char(n) as int - '0' as int) == n);
        assert(digits_value(Seq::<char>::empty()) == 0);
        assert(digits_value(decimal(n)) == digits_value(decimal(n).drop_last()) * 10 + (decimal(n).last() as int - '0' as int) as nat);
    } else {
        lemma_digits_of_decimal(n / 10);
        let head = decimal(n / 10);
        let whole = decimal(n);
        assert(whole == head + seq![crate::text::digit_char(n % 10)]);
        assert(whole.drop_last() =~= head);
        assert(whole[0] == head[0]);
        assert forall|i: int| 0 <= i < whole.len() implies is_digit(#[trigger] whole[i]) by {
            if i < head.len() {
                assert(whole[i] == head[i]);
            }
        }
        assert(n == (n / 10) * 10 + n % 10) by (nonlinear_arith);
        assert((crate::text::digit_char(n % 10) as int - '0' as int) == n % 10);
        assert(whole.last() == crate::text::digit_char(n % 10));
        assert(digits_value(whole) == digits_value(whole.drop_last()) * 10 + (whole.last() as int - '0' as int) as nat);
    }
}

proof fn lemma_digits_value_positive(d: Seq<char>)
    requires
        d.len() >= 1,
        forall|i: int| 0 <= i < d.len() ==> is_digit(#[trigger] d[i]),
        d[0] != '0',
    ensures
        digits_value(d) >= 1,
    decreases d.len(),
{
    if d.len() > 1 {
        let p = d.drop_last();
        assert forall|i: int| 0 <= i < p.len() implies is_digit(#[trigger] p[i]) by {
            assert(p[i] == d[i]);
        }
        lemma_digits_value_positive(p);
    }
}

proof fn lemma_decimal_of_digits(d: Seq<char>)
    requires
        canonical_digits(d),
    ensures
        decimal(digits_value(d)) == d,
    decreases d.len(),
{
    if d.len() == 1 {
        assert(d.drop_last() =~= Seq::<char>::empty());
        assert(is_digit(d[0]));
        assert(digits_value(Seq::<char>::empty()) == 0);
        let k = (d[0] as int - '0' as int) as nat;
        assert(digits_value(d) == k);
        assert(k < 10);
        assert(crate::text::digit_char(k) == d[0]);
        assert(decimal(k) == seq![crate::text::digit_char(k)]);
        assert(decimal(digits_value(d)) =~= d);
    } else {
        let p = d.drop_last();
        assert forall|i: int| 0 <= i < p.len() implies is_digit(#[trigger] p[i]) by {
            assert(p[i] == d[i]);
        }
        assert(p[0] == d[0]);
        lemma_decimal_of_digits(p);
        lemma_digits_value_positive(p);
        let a = digits_value(p);
        let c = (d.last() as int - '0' as int) as nat;
        assert(is_digit(d[d.len() - 1]));
        assert(c < 10);
        let x = digits_value(d);
        assert(x == a * 10 + c);
        assert(x / 10 == a && x % 10 == c) by (nonlinear_arith)
            requires
                x == a * 10 + c,
                c < 10,
        ;
        assert(x >= 10) by (nonlinear_arith)
            requires
                x == a * 10 + c,
                a >= 1,
        ;
        assert(decimal(x) =~= d);
    }
}

/// Law: every version reference reads back from its own wire spelling.
pub proof fn lemma_version_ref_round_trip(v: VersionRef)
    ensures
        version_ref_of(version_ref_wire(v)) == Some(v),
{
    reveal_strlit("absent");
    match v {
        VersionRef::Version(n) => {
            lemma_digits_of_decimal(n as nat);
            let w = version_ref_wire(v);
            assert(w.drop_first() =~= decimal(n as nat));
            assert(w[0] == 'v');
            assert(w != "absent"@);
        },
        VersionRef::Absent => {},
    }
}

/// Law: an accepted wire spelling is the canonical spelling of what it reads as,
/// so accepted strings round-trip byte-identically.
pub proof fn lemma_version_ref_canonical(s: Seq<char>)
    requires
        version_ref_of(s) is Some,
    ensures
        version_ref_wire(version_ref_of(s)->0) == s,
{
    reveal_strlit("absent");
    if s != "absent"@ {
        let d = s.drop_first();
        lemma_decimal_of_digits(d);
        assert(seq!['v'] + d =~= s);
    }
}

/// Non-authoritative provenance labels of an issuance.
#[derive(Debug, Clone, PartialEq, Eq)]
pub struct ExecutionContext {
    pub context_label: Option<String>,
    pub backend_id: Option<String>,
    pub provider_id: Option<String>,
}

/// The metadata every canonical mutation carries: who, from which device, under
/// which idempotency key, at which times, over which observed versions.
#[derive(Debug)]
pub struct MutationEnvelope {
    pub idempotency_key: IdempotencyKey,
    /// Observed object versions, keyed by identifier text.
    pub observed_versions: KeyedList<VersionRef>,
    pub origin_device_id: DeviceId,
    pub actor_identity_id: UbuId,
    pub authority_source: AuthoritySource,
    pub created_time: UbuTimestamp,
    pub effective_time: UbuTimestamp,
    pub recorded_time: UbuTimestamp,
    /// Policy versions the mutation relied on, keyed by policy name.
    pub observed_policy_versions: Option<KeyedList<String>>,
    pub execution_context: Option<ExecutionContext>,
}

/// Every observed-version key is an identifier that `UbuId::parse` accepts.
pub open spec fn observed_ids_valid(m: Map<Seq<char>, VersionRef>) -> bool {
    forall|k: Seq<char>| #[trigger] m.contains_key(k) ==> valid_ubu_id(k)
}

/// The first observed-version key, in stored order, that is not a valid identifier.
pub open spec fn first_invalid_id(keys: Seq<Seq<char>>, i: nat) -> Option<Seq<char>>
    decreases keys.len() - i,
{
    if i >= keys.len() {
        None
    } else if !valid_ubu_id(keys[i as int]) {
        Some(keys[i as int])
    } else {
        first_invalid_id(keys, i + 1)
    }
}

/// The error `UbuId::parse` gives for an invalid identifier text.
pub open spec fn id_error_matches(e: UbuError, k: Seq<char>) -> bool {
    if !id_shape(k) {
        e matches UbuError::InvalidId { value } && value@ == k
    } else {
        e matches UbuError::UnknownIdPrefix { prefix } && prefix@ == id_prefix_part(k)
    }
}

/// The stored keys of the observed versions.
pub open spec fn observed_keys(e: &MutationEnvelope) -> Seq<Seq<char>> {
    e.observed_versions.spec_entries().map_values(|p: (String, VersionRef)| p.0@)
}

impl MutationEnvelope {
    /// Check the envelope: the actor must be an Identity, and every observed key
    /// an identifier. The three times are not ordered against each other.
    #[verifier::loop_isolation(false)]
    pub fn validate(&self) -> (r: Result<(), UbuError>)
        ensures
            id_object_type(self.actor_identity_id@) != ObjectType::Identity ==> r matches Err(
                UbuError::WrongIdObjectType { .. },
            ),
            id_object_type(self.actor_identity_id@) == ObjectType::Identity ==> match first_invalid_id(
                observed_keys(self),
                0,
            ) {
                None => r is Ok,
                Some(k) => r matches Err(e) && id_error_matches(e, k),
            },
            r is Ok <==> (id_object_type(self.actor_identity_id@) == ObjectType::Identity
                && observed_ids_valid(self.observed_versions@)),
    {
        self.actor_identity_id.require_object_type(ObjectType::Identity)?;
        DeviceId::parse(self.origin_device_id.as_str())?;
        IdempotencyKey::parse(self.idempotency_key.as_str())?;
        let entries = self.observed_versions.entries();
        let ghost keys = observed_keys(self);
        assert(keys.len() == entries@.len());
        let mut i: usize = 0;
        while i < entries.len()
            invariant
                keys == entries@.map_values(|p: (String, VersionRef)| p.0@),
                keys_distinct(entries@),
                self.observed_versions@ == entries_map(entries@),
                i <= entries@.len(),
                first_invalid_id(keys, 0) == first_invalid_id(keys, i as nat),
                forall|j: int| 0 <= j < i ==> valid_ubu_id(#[trigger] keys[j]),
            decreases entries@.len() - i,
        {
            assert(keys[i as int] == entries@[i as int].0@);
            match UbuId::parse(entries[i].0.as_str()) {
                Ok(_) => {},
                Err(e) => {
                    proof {
                        lemma_key_index(entries@, i as int);
                    }
                    return Err(e);
                },
            }
            i = i + 1;
        }
        proof {
            assert forall|k: Seq<char>| #[trigger] self.observed_versions@.contains_key(k) implies valid_ubu_id(k) by {
                let j = key_index(entries@, k);
                assert(keys[j] == k);
            }
        }
        Ok(())
    }

    /// Demand observed policy versions: `Ok` exactly when some are present.
    pub fn require_policy_versions(&self) -> (r: Result<(), UbuError>)
        ensures
            r is Ok <==> (self.observed_policy_versions matches Some(v) && v@.dom().len() > 0),
            r matches Err(e) ==> e == UbuError::MissingObservedPolicyVersions,
    {
        match &self.observed_policy_versions {
            Some(versions) => {
                if versions.len() > 0 {
                    Ok(())
                } else {
                    Err(UbuError::MissingObservedPolicyVersions)
                }
            },
            None => Err(UbuError::MissingObservedPolicyVersions),
        }
    }

    /// The duplicate-detection key: origin device and idempotency key.
    pub fn mutation_key(&self) -> (r: MutationKey)
        ensures
            r.origin_device_id@ == self.origin_device_id@,
            r.idempotency_key@ == self.idempotency_key@,
    {
        MutationKey {
            origin_device_id: self.origin_device_id.clone(),
            idempotency_key: self.idempotency_key.clone(),
        }
    }
}

/// Duplicate-detection key; two are equal exactly when device and key are.
#[derive(Debug, Clone, Hash)]
pub struct MutationKey {
    pub origin_device_id: DeviceId,
    pub idempotency_key: IdempotencyKey,
}

impl MutationKey {
    /// Whether both parts are equal.
    pub fn same_as(&self, other: &MutationKey) -> (r: bool)
        ensures
            r == (self.origin_device_id@ == other.origin_device_id@ && self.idempotency_key@
                == other.idempotency_key@),
    {
        self.origin_device_id.same_as(&other.origin_device_id) && str_eq(
            self.idempotency_key.as_str(),
            other.idempotency_key.as_str(),
        )
    }
}

impl PartialEq for MutationKey {
    fn eq(&self, other: &Self) -> (r: bool) {
        self.same_as(other)
    }
}

impl vstd::std_specs::cmp::PartialEqSpecImpl for MutationKey {
    open spec fn obeys_eq_spec() -> bool {
        true
    }

    open spec fn eq_spec(&self, other: &Self) -> bool {
        self.origin_device_id@ == other.origin_device_id@ && self.idempotency_key@ == other.idempotency_key@
    }
}

impl Eq for MutationKey {}

/// The canonical bytes of a payload: compact UTF-8 JSON with object keys sorted
/// at every depth, arrays in their own order and values kept.
pub fn canonical_payload_bytes(payload: &JsonValue) -> (r: Vec<u8>)
    requires
        json_wf(payload@),
    ensures
        r@ == encode_utf8(canonical_text(payload@)),
{
    let mut text = String::new();
    write_canonical(payload, &mut text);
    let bytes = text.as_str().as_bytes();
    vstd::slice::slice_to_vec(bytes)
}

/// The domain inputs of an issuance; device, key and admission times belong to the issuer.
#[derive(Debug)]
pub struct EnvelopeRequest {
    pub observed_versions: KeyedList<VersionRef>,
    pub actor_identity_id: UbuId,
    pub authority_source: AuthoritySource,
    pub effective_time: UbuTimestamp,
    pub observed_policy_versions: Option<KeyedList<String>>,
    pub execution_context: Option<ExecutionContext>,
}

/// The envelope an issuer assembles from a request, its device, a fresh key and
/// one clock reading that stamps both creation and recording; `Err` where the
/// assembled envelope does not validate.
pub fn assemble_envelope(
    request: EnvelopeRequest,
    origin_device_id: DeviceId,
    idempotency_key: IdempotencyKey,
    now: UbuTimestamp,
) -> (r: Result<MutationEnvelope, UbuError>)
    ensures
        r is Ok <==> (id_object_type(request.actor_identity_id@) == ObjectType::Identity
            && observed_ids_valid(request.observed_versions@)),
        r matches Ok(e) ==> {
            &&& e.idempotency_key@ == idempotency_key@
            &&& e.origin_device_id@ == origin_device_id@
            &&& e.observed_versions@ == request.observed_versions@
            &&& e.actor_identity_id@ == request.actor_identity_id@
            &&& e.authority_source == request.authority_source
            &&& e.created_time == now
            &&& e.recorded_time == now
            &&& e.effective_time == request.effective_time
            &&& e.observed_policy_versions.is_some() == request.observed_policy_versions.is_some()
            &&& (e.observed_policy_versions matches Some(v) ==> v@ == request.observed_policy_versions->0@)
            &&& e.execution_context == request.execution_context
        },
        r matches Err(e) ==> (id_object_type(request.actor_identity_id@) != ObjectType::Identity ==> e matches UbuError::WrongIdObjectType { .. }),
        id_object_type(request.actor_identity_id@) == ObjectType::Identity ==> match first_invalid_id(
            request.observed_versions.spec_entries().map_values(|p: (String, VersionRef)| p.0@),
            0,
        ) {
            None => r is Ok,
            Some(k) => r matches Err(e) && id_error_matches(e, k),
        },
{
    let envelope = MutationEnvelope {
        idempotency_key,
        observed_versions: request.observed_versions,
        origin_device_id,
        actor_identity_id: request.actor_identity_id,
        authority_source: request.authority_source,
        created_time: now,
        effective_time: request.effective_time,
        recorded_time: now,
        observed_policy_versions: request.observed_policy_versions,
        execution_context: request.execution_context,
    };
    envelope.validate()?;
    Ok(envelope)
}

/// Admission-owned seam for issuing a canonical mutation's envelope.
pub trait CausalityIssuer {
    fn issue(&self, request: EnvelopeRequest) -> Result<MutationEnvelope, UbuError>;
}

/// A source of the current time for an issuer.
pub trait IssuerClock {
    /// Whether `t` is a reading this clock may give.
    spec fn reads(&self, t: UbuTimestamp) -> bool;

    /// Read the clock.
    fn now(&self) -> (r: UbuTimestamp)
        ensures
            self.reads(r),
    ;
}

/// The system clock, read in UTC.
#[derive(Debug, Clone, Copy)]
pub struct SystemClock;

impl IssuerClock for SystemClock {
    /// Any instant, read in UTC.
    open spec fn reads(&self, t: UbuTimestamp) -> bool {
        t@.1 == 0
    }

    /// The current instant, read in UTC.
    fn now(&self) -> (r: UbuTimestamp)
        ensures
            r@.1 == 0,
    {
        UbuTimestamp::now_utc()
    }
}

/// A clock that always reads the same instant.
#[derive(Debug, Clone, Copy)]
pub struct FixedClock(pub UbuTimestamp);

impl IssuerClock for FixedClock {
    /// Exactly the fixed instant.
    open spec fn reads(&self, t: UbuTimestamp) -> bool {
        t == self.0
    }

    fn now(&self) -> (r: UbuTimestamp)
        ensures
            r == self.0,
    {
        self.0
    }
}

/// An issuer that mints a fresh, opaque UUIDv7 idempotency key per issuance and
/// stamps creation and recording with one reading of its clock.
pub struct LocalIssuer<C: IssuerClock> {
    device_id: DeviceId,
    clock: C,
}

impl LocalIssuer<SystemClock> {
    /// An issuer for `device_id` on the system clock.
    pub fn new(device_id: DeviceId) -> (r: LocalIssuer<SystemClock>)
        ensures
            r.spec_device()@ == device_id@,
    {
        LocalIssuer { device_id, clock: SystemClock }
    }
}

impl<C: IssuerClock> LocalIssuer<C> {
    /// An issuer for `device_id` reading `clock`.
    pub fn with_clock(device_id: DeviceId, clock: C) -> (r: LocalIssuer<C>)
        ensures
            r.spec_device()@ == device_id@,
            r.spec_clock() == clock,
    {
        LocalIssuer { device_id, clock }
    }

    /// The device this issuer stamps as origin.
    pub closed spec fn spec_device(&self) -> DeviceId {
        self.device_id
    }

    /// The clock this issuer reads.
    pub closed spec fn spec_clock(&self) -> C {
        self.clock
    }
}

impl<C: IssuerClock> CausalityIssuer for LocalIssuer<C> {
    fn issue(&self, request: EnvelopeRequest) -> (r: Result<MutationEnvelope, UbuError>)
        ensures
            r is Ok <==> (id_object_type(request.actor_identity_id@) == ObjectType::Identity
                && observed_ids_valid(request.observed_versions@)),
            r matches Ok(e) ==> {
                &&& uuid_v7_simple_text(e.idempotency_key@)
                &&& e.origin_device_id@ == self.spec_device()@
                &&& e.created_time == e.recorded_time
                &&& self.spec_clock().reads(e.created_time)
                &&& e.effective_time == request.effective_time
                &&& e.observed_versions@ == request.observed_versions@
                &&& e.actor_identity_id@ == request.actor_identity_id@
                &&& e.authority_source == request.authority_source
                &&& e.observed_policy_versions.is_some() == request.observed_policy_versions.is_some()
                &&& (e.observed_policy_versions matches Some(v) ==> v@ == request.observed_policy_versions->0@)
                &&& e.execution_context == request.execution_context
            },
            r matches Err(e) ==> (id_object_type(request.actor_identity_id@) != ObjectType::Identity
                ==> e matches UbuError::WrongIdObjectType { .. }),
            id_object_type(request.actor_identity_id@) == ObjectType::Identity ==> match first_invalid_id(
                request.observed_versions.spec_entries().map_values(|p: (String, VersionRef)| p.0@),
                0,
            ) {
                None => r is Ok,
                Some(k) => r matches Err(e) && id_error_matches(e, k),
            },
    {
        let fresh = uuid_v7_simple();
        let idempotency_key = match IdempotencyKey::parse(fresh.as_str()) {
            Ok(k) => k,
            Err(e) => {
                return Err(e);
            },
        };
        let now = self.clock.now();
        assemble_envelope(request, self.device_id.clone(), idempotency_key, now)
    }
}

} // verus!
