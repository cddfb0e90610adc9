//! Device registration material and registry semantics, without persistence or I/O.
use vstd::prelude::*;
use vstd::std_specs::iter::IteratorSpec;

use crate::compartment_label::CompartmentLabel;
use crate::errors::UbuError;
use crate::id_registry::{object_type_name, ObjectType};
use crate::ids::{id_object_type, UbuId};
use crate::text::{lemma_lex_trichotomy, lex_less, str_eq, str_less};
use crate::text_set::{lemma_insert_sorted, lemma_sorted_position, texts_sorted, TextSet};
use crate::time::UbuTimestamp;

pub use crate::store::mutation_envelope::DeviceId;

verus! {

/// Exactly one opaque, non-empty Zone identifier.
#[derive(Debug, Hash)]
pub struct ZoneId(String);

impl View for ZoneId {
    type V = Seq<char>;

    closed spec fn view(&self) -> Seq<char> {
        self.0@
    }
}

impl ZoneId {
    #[verifier::type_invariant]
    closed spec fn inv(&self) -> bool {
        self.0@.len() > 0
    }

    /// Accept any non-empty identifier.
    pub fn parse(value: &str) -> (r: Result<ZoneId, UbuError>)
        ensures
            r is Ok <==> value@.len() > 0,
            r matches Ok(z) ==> z@ == value@,
            r matches Err(e) ==> e == UbuError::EmptyZoneId,
    {
        if value.is_empty() {
            return Err(UbuError::EmptyZoneId);
        }
        Ok(ZoneId(value.to_owned()))
    }

    pub fn as_str(&self) -> (r: &str)
        ensures
            r@ == self@,
            self@.len() > 0,
    {
        proof {
            use_type_invariant(self);
        }
        self.0.as_str()
    }
}

impl Clone for ZoneId {
    fn clone(&self) -> (r: ZoneId)
        ensures
            r@ == self@,
    {
        proof {
            use_type_invariant(self);
        }
        ZoneId(self.0.clone())
    }
}

impl PartialEq for ZoneId {
    fn eq(&self, other: &Self) -> (r: bool) {
        self.0 == other.0
    }
}

impl vstd::std_specs::cmp::PartialEqSpecImpl for ZoneId {
    open spec fn obeys_eq_spec() -> bool {
        true
    }

    open spec fn eq_spec(&self, other: &Self) -> bool {
        self@ == other@
    }
}

impl Eq for ZoneId {}

/// Enclave forms. A kind alone does not confer registration or authority.
#[non_exhaustive]
#[derive(Debug, Clone, Copy, PartialEq, Eq, Hash, Structural)]
pub enum DeviceKind {
    OsUserProfile,
    Container,
    VirtualMachine,
    SecureEnclave,
    BrowserProfile,
    BrowserSession,
    WorkerProcess,
    WorkerRuntime,
}

#[non_exhaustive]
#[derive(Debug, Clone, Copy, PartialEq, Eq, Hash, Structural)]
pub enum TrustState {
    Registered,
    Revoked,
}

#[non_exhaustive]
#[derive(Debug, Clone, Copy, PartialEq, Eq, Hash, Structural)]
pub enum SyncState {
    /// Local-only registration, never synced.
    LocalOnly,
}

/// The schema spelling of a device kind.
pub open spec fn device_kind_wire(k: DeviceKind) -> Seq<char> {
    match k {
        DeviceKind::OsUserProfile => "os_user_profile"@,
        DeviceKind::Container => "container"@,
        DeviceKind::VirtualMachine => "virtual_machine"@,
        DeviceKind::SecureEnclave => "secure_enclave"@,
        DeviceKind::BrowserProfile => "browser_profile"@,
        DeviceKind::BrowserSession => "browser_session"@,
        DeviceKind::WorkerProcess => "worker_process"@,
        DeviceKind::WorkerRuntime => "worker_runtime"@,
    }
}

/// The device kind a schema spelling names, if any.
pub open spec fn device_kind_named(s: Seq<char>) -> Option<DeviceKind> {
    if s == "os_user_profile"@ {
        Some(DeviceKind::OsUserProfile)
    } else if s == "container"@ {
        Some(DeviceKind::Container)
    } else if s == "virtual_machine"@ {
        Some(DeviceKind::VirtualMachine)
    } else if s == "secure_enclave"@ {
        Some(DeviceKind::SecureEnclave)
    } else if s == "browser_profile"@ {
        Some(DeviceKind::BrowserProfile)
    } else if s == "browser_session"@ {
        Some(DeviceKind::BrowserSession)
    } else if s == "worker_process"@ {
        Some(DeviceKind::WorkerProcess)
    } else if s == "worker_runtime"@ {
        Some(DeviceKind::WorkerRuntime)
    } else {
        None
    }
}

impl DeviceKind {
    /// The schema spelling.
    pub fn wire(self) -> (r: &'static str)
        ensures
            r@ == device_kind_wire(self),
    {
        match self {
            DeviceKind::OsUserProfile => "os_user_profile",
            DeviceKind::Container => "container",
            DeviceKind::VirtualMachine => "virtual_machine",
            DeviceKind::SecureEnclave => "secure_enclave",
            DeviceKind::BrowserProfile => "browser_profile",
            DeviceKind::BrowserSession => "browser_session",
            DeviceKind::WorkerProcess => "worker_process",
            DeviceKind::WorkerRuntime => "worker_runtime",
        }
    }

    /// The kind a schema spelling names; `None` for any other text.
    pub fn from_wire(value: &str) -> (r: Option<DeviceKind>)
        ensures
            r == device_kind_named(value@),
    {
        if str_eq(value, "os_user_profile") {
            Some(DeviceKind::OsUserProfile)
        } else if str_eq(value, "container") {
            Some(DeviceKind::Container)
        } else if str_eq(value, "virtual_machine") {
            Some(DeviceKind::VirtualMachine)
        } else if str_eq(value, "secure_enclave") {
            Some(DeviceKind::SecureEnclave)
        } else if str_eq(value, "browser_profile") {
            Some(DeviceKind::BrowserProfile)
        } else if str_eq(value, "browser_session") {
            Some(DeviceKind::BrowserSession)
        } else if str_eq(value, "worker_process") {
            Some(DeviceKind::WorkerProcess)
        } else if str_eq(value, "worker_runtime") {
            Some(DeviceKind::WorkerRuntime)
        } else {
            None
        }
    }
}

/// The schema spelling of a trust state.
pub open spec fn trust_state_wire(t: TrustState) -> Seq<char> {
    match t {
        TrustState::Registered => "registered"@,
        TrustState::Revoked => "revoked"@,
    }
}

/// The trust state a schema spelling names, if any.
pub open spec fn trust_state_named(s: Seq<char>) -> Option<TrustState> {
    if s == "registered"@ {
        Some(TrustState::Registered)
    } else if s == "revoked"@ {
        Some(TrustState::Revoked)
    } else {
        None
    }
}

impl TrustState {
    /// The schema spelling.
    pub fn wire(self) -> (r: &'static str)
        ensures
            r@ == trust_state_wire(self),
    {
        match self {
            TrustState::Registered => "registered",
            TrustState::Revoked => "revoked",
        }
    }

    /// The trust state a schema spelling names; `None` for any other text.
    pub fn from_wire(value: &str) -> (r: Option<TrustState>)
        ensures
            r == trust_state_named(value@),
    {
        if str_eq(value, "registered") {
            Some(TrustState::Registered)
        } else if str_eq(value, "revoked") {
            Some(TrustState::Revoked)
        } else {
            None
        }
    }
}

/// The schema spelling of a sync state.
pub open spec fn sync_state_wire(t: SyncState) -> Seq<char> {
    match t {
        SyncState::LocalOnly => "local_only"@,
    }
}

impl SyncState {
    /// The schema spelling.
    pub fn wire(self) -> (r: &'static str)
        ensures
            r@ == sync_state_wire(self),
    {
        match self {
            SyncState::LocalOnly => "local_only",
        }
    }

    /// The sync state a schema spelling names; `None` for any other text.
    pub fn from_wire(value: &str) -> (r: Option<SyncState>)
        ensures
            r == (if value@ == "local_only"@ {
                Some(SyncState::LocalOnly)
            } else {
                None
            }),
    {
        if str_eq(value, "local_only") {
            Some(SyncState::LocalOnly)
        } else {
            None
        }
    }
}

/// Law: every device kind and trust state is named by its schema
/// spelling and by no other: reading the spelling back gives the same value.
pub proof fn lemma_vocabulary_round_trip(k: DeviceKind, t: TrustState)
    ensures
        device_kind_named(device_kind_wire(k)) == Some(k),
        trust_state_named(trust_state_wire(t)) == Some(t),
{
    reveal_strlit("os_user_profile");
    reveal_strlit("container");
    reveal_strlit("virtual_machine");
    reveal_strlit("secure_enclave");
    reveal_strlit("browser_profile");
    reveal_strlit("browser_session");
    reveal_strlit("worker_process");
    reveal_strlit("worker_runtime");
    reveal_strlit("registered");
    reveal_strlit("revoked");
    match k {
        DeviceKind::OsUserProfile => {

        },
        DeviceKind::Container => {
            assert("container"@.len() != "os_user_profile"@.len());
        },
        DeviceKind::VirtualMachine => {
            assert("virtual_machine"@[0] != "os_user_profile"@[0]);
            assert("virtual_machine"@.len() != "container"@.len());
        },
        DeviceKind::SecureEnclave => {
            assert("secure_enclave"@.len() != "os_user_profile"@.len());
            assert("secure_enclave"@.len() != "container"@.len());
            assert("secure_enclave"@.len() != "virtual_machine"@.len());
        },
        DeviceKind::BrowserProfile => {
            assert("browser_profile"@[0] != "os_user_profile"@[0]);
            assert("browser_profile"@.len() != "container"@.len());
            assert("browser_profile"@[0] != "virtual_machine"@[0]);
            assert("browser_profile"@.len() != "secure_enclave"@.len());
        },
        DeviceKind::BrowserSession => {
            assert("browser_session"@[0] != "os_user_profile"@[0]);
            assert("browser_session"@.len() != "container"@.len());
            assert("browser_session"@[0] != "virtual_machine"@[0]);
            assert("browser_session"@.len() != "secure_enclave"@.len());
            assert("browser_session"@[8] != "browser_profile"@[8]);
        },
        DeviceKind::WorkerProcess => {
            assert("worker_process"@.len() != "os_user_profile"@.len());
            assert("worker_process"@.len() != "container"@.len());
            assert("worker_process"@.len() != "virtual_machine"@.len());
            assert("worker_process"@[0] != "secure_enclave"@[0]);
            assert("worker_process"@.len() != "browser_profile"@.len());
            assert("worker_process"@.len() != "browser_session"@.len());
        },
        DeviceKind::WorkerRuntime => {
            assert("worker_runtime"@.len() != "os_user_profile"@.len());
            assert("worker_runtime"@.len() != "container"@.len());
            assert("worker_runtime"@.len() != "virtual_machine"@.len());
            assert("worker_runtime"@[0] != "secure_enclave"@[0]);
            assert("worker_runtime"@.len() != "browser_profile"@.len());
            assert("worker_runtime"@.len() != "browser_session"@.len());
            assert("worker_runtime"@[7] != "worker_process"@[7]);
        },
    }
    assert("revoked"@[2] != "registered"@[2]);
}

/// One registered device: what it is, whose it is, and what it may reach.
#[derive(Debug, Clone, PartialEq, Eq)]
pub struct DeviceRegistration {
    pub device_id: DeviceId,
    pub label: String,
    pub kind: DeviceKind,
    pub registered_at: UbuTimestamp,
    pub registered_identity_id: UbuId,
    pub trust_state: TrustState,
    pub sync_state: SyncState,
    pub zone_id: ZoneId,
    /// Capabilities, in ascending order, each once.
    pub capability_profile: TextSet,
    /// The allowlist of Compartment labels, in ascending order, each once; every
    /// unlisted label is denied.
    pub compartment_access: TextSet,
    pub last_seen_at: Option<UbuTimestamp>,
}

/// The registration passes `validate`.
pub open spec fn registration_ok(reg: DeviceRegistration) -> bool {
    &&& id_object_type(reg.registered_identity_id@) == ObjectType::Identity
    &&& reg.label@.len() > 0
    &&& !reg.capability_profile@.contains(Seq::<char>::empty())
}

/// `e` is the error `validate` gives for a registration that fails it: the
/// identity check first, then the label, then the capabilities.
pub open spec fn registration_error(reg: DeviceRegistration, e: UbuError) -> bool {
    if id_object_type(reg.registered_identity_id@) != ObjectType::Identity {
        e matches UbuError::WrongIdObjectType { id, expected, actual } && id@ == reg.registered_identity_id@
            && expected@ == object_type_name(ObjectType::Identity) && actual@ == object_type_name(
            id_object_type(reg.registered_identity_id@),
        )
    } else if reg.label@.len() == 0 {
        e == UbuError::EmptyDeviceLabel
    } else {
        e == UbuError::EmptyDeviceCapability
    }
}

impl DeviceRegistration {
    /// Validate registration inputs. Non-empty strings are not trimmed; the
    /// registration and last-seen times are not ordered against each other.
    pub fn validate(&self) -> (r: Result<(), UbuError>)
        ensures
            r is Ok <==> registration_ok(*self),
            r matches Err(e) ==> registration_error(*self, e),
    {
        self.registered_identity_id.require_object_type(ObjectType::Identity)?;
        if self.label.as_str().is_empty() {
            return Err(UbuError::EmptyDeviceLabel);
        }
        ZoneId::parse(self.zone_id.as_str())?;
        proof {
            reveal_strlit("");
            assert(""@ =~= Seq::<char>::empty());
        }
        if self.capability_profile.contains("") {
            return Err(UbuError::EmptyDeviceCapability);
        }
        Ok(())
    }

    /// Whether `label` is on the allowlist; nothing else grants access.
    pub fn may_access(&self, label: &CompartmentLabel) -> (r: bool)
        ensures
            r == self.compartment_access@.contains(label@),
    {
        self.compartment_access.contains(label.as_str())
    }

    /// Only a registered device may originate mutations; this grants no
    /// Compartment access.
    pub fn may_originate_mutations(&self) -> (r: bool)
        ensures
            r == (self.trust_state == TrustState::Registered),
    {
        match self.trust_state {
            TrustState::Registered => true,
            _ => false,
        }
    }
}

/// The device identifiers of a list of registrations.
pub open spec fn registration_ids(s: Seq<DeviceRegistration>) -> Seq<Seq<char>> {
    s.map_values(|r: DeviceRegistration| r.device_id@)
}

/// The first position at which building a registry fails: a registration that
/// does not validate, or one whose device identifier came earlier.
pub open spec fn first_registry_fault(s: Seq<DeviceRegistration>, j: nat) -> Option<int>
    decreases s.len() - j,
{
    if j >= s.len() {
        None
    } else if !registration_ok(s[j as int]) || registration_ids(s.take(j as int)).contains(s[j as int].device_id@) {
        Some(j as int)
    } else {
        first_registry_fault(s, j + 1)
    }
}

/// A pure in-memory registry, in ascending device identifier order. It exposes
/// no singleton accessor: a registry of one is no proof of authority.
#[derive(Debug, PartialEq, Eq)]
pub struct DeviceRegistry {
    registrations: Vec<DeviceRegistration>,
}

impl DeviceRegistry {
    #[verifier::type_invariant]
    closed spec fn inv(&self) -> bool {
        texts_sorted(registration_ids(self.registrations@))
    }

    /// The registrations in ascending device identifier order.
    pub closed spec fn spec_registrations(&self) -> Seq<DeviceRegistration> {
        self.registrations@
    }

    /// Build a registry from validated records, refusing a duplicate identifier;
    /// the first offending record, in the given order, decides the error.
    #[verifier::loop_isolation(false)]
    pub fn new(registrations: Vec<DeviceRegistration>) -> (r: Result<DeviceRegistry, UbuError>)
        ensures
            match first_registry_fault(registrations@, 0) {
                None => r matches Ok(reg) && reg.spec_registrations().to_multiset() == registrations@.to_multiset()
                    && texts_sorted(registration_ids(reg.spec_registrations())),
                Some(j) => r matches Err(e) && if !registration_ok(registrations@[j]) {
                    registration_error(registrations@[j], e)
                } else {
                    e matches UbuError::DuplicateDeviceId { device_id } && device_id@ == registrations@[j].device_id@
                },
            },
    {
        let ghost input = registrations@;
        let n = registrations.len();
        let mut pending = registrations;
        let mut entries: Vec<DeviceRegistration> = Vec::new();
        let mut j: usize = 0;
        proof {
            assert(input.take(0) =~= Seq::<DeviceRegistration>::empty());
            assert(entries@ =~= Seq::<DeviceRegistration>::empty());
        }
        while j < n
            invariant
                n == input.len(),
                j <= n,
                pending@ == input.skip(j as int),
                entries@.to_multiset() == input.take(j as int).to_multiset(),
                texts_sorted(registration_ids(entries@)),
                first_registry_fault(input, 0) == first_registry_fault(input, j as nat),
            decreases n - j,
        {
            let ghost before = entries@;
            let ghost rest = pending@;
            let registration = pending.remove(0);
            proof {
                assert(registration == input[j as int]);
                assert(pending@ =~= input.skip(j + 1));
            }
            match registration.validate() {
                Ok(()) => {},
                Err(e) => {
                    return Err(e);
                },
            }
            let ghost ids = registration_ids(before);
            let mut i: usize = 0;
            while i < entries.len() && str_less(entries[i].device_id.as_str(), registration.device_id.as_str())
                invariant
                    before == entries@,
                    ids == registration_ids(before),
                    i <= entries@.len(),
                    forall|k: int| 0 <= k < i ==> lex_less(#[trigger] ids[k], registration.device_id@),
                decreases entries@.len() - i,
            {
                i = i + 1;
            }
            proof {
                lemma_sorted_position(ids, i as int, registration.device_id@);
                lemma_ids_match_taken(input, before, j as int);
            }
            if i < entries.len() && str_eq(entries[i].device_id.as_str(), registration.device_id.as_str()) {
                return Err(UbuError::DuplicateDeviceId { device_id: registration.device_id.as_str().to_owned() });
            }
            proof {
                if i < entries@.len() {
                    lemma_lex_trichotomy(ids[i as int], registration.device_id@);
                }
            }
            entries.insert(i, registration);
            proof {
                let t = registration_ids(entries@);
                assert(t =~= ids.subrange(0, i as int) + (seq![input[j as int].device_id@] + ids.subrange(i as int, ids.len() as int)));
                lemma_insert_sorted(ids, i as int, input[j as int].device_id@, t);
                assert(input.take(j + 1) =~= input.take(j as int).push(input[j as int]));
                vstd::seq_lib::to_multiset_build(input.take(j as int), input[j as int]);
                vstd::seq_lib::to_multiset_insert(before, i as int, input[j as int]);
            }
            j = j + 1;
        }
        proof {
            assert(input.take(n as int) =~= input);
        }
        Ok(DeviceRegistry { registrations: entries })
    }

    /// The registration of `device_id`, if any.
    pub fn get(&self, device_id: &DeviceId) -> (r: Option<&DeviceRegistration>)
        ensures
            match r {
                Some(x) => self.spec_registrations().contains(*x) && x.device_id@ == device_id@,
                None => !registration_ids(self.spec_registrations()).contains(device_id@),
            },
            r matches Some(x) ==> forall|k: int|
                0 <= k < self.spec_registrations().len() && #[trigger] self.spec_registrations()[k].device_id@
                    == device_id@ ==> self.spec_registrations()[k] == *x,
    {
        proof {
            use_type_invariant(self);
        }
        let mut i: usize = 0;
        while i < self.registrations.len()
            invariant
                i <= self.registrations@.len(),
                texts_sorted(registration_ids(self.registrations@)),
                forall|k: int| 0 <= k < i ==> #[trigger] self.registrations@[k].device_id@ != device_id@,
            decreases self.registrations@.len() - i,
        {
            if self.registrations[i].device_id.same_as(device_id) {
                proof {
                    assert forall|k: int|
                        0 <= k < self.registrations@.len() && #[trigger] self.registrations@[k].device_id@
                            == device_id@ implies self.registrations@[k] == self.registrations@[i as int] by {
                        lemma_registry_ids_unique(self.registrations@, k, i as int);
                    }
                }
                return Some(&self.registrations[i]);
            }
            i = i + 1;
        }
        proof {
            if registration_ids(self.registrations@).contains(device_id@) {
                let k = choose|k: int| 0 <= k < self.registrations@.len() && registration_ids(self.registrations@)[k] == device_id@;
                assert(self.registrations@[k].device_id@ == device_id@);
            }
        }
        None
    }

    pub fn len(&self) -> (r: usize)
        ensures
            r == self.spec_registrations().len(),
    {
        self.registrations.len()
    }

    pub fn is_empty(&self) -> (r: bool)
        ensures
            r == (self.spec_registrations().len() == 0),
    {
        self.registrations.len() == 0
    }

    /// The registrations in ascending device identifier order.
    pub fn registrations(&self) -> (r: &[DeviceRegistration])
        ensures
            r@ == self.spec_registrations(),
            texts_sorted(registration_ids(r@)),
    {
        proof {
            use_type_invariant(self);
        }
        self.registrations.as_slice()
    }

    /// Iterate the registrations in ascending device identifier order.
    pub fn iter(&self) -> (r: std::slice::Iter<'_, DeviceRegistration>)
        ensures
            r.remaining() == self.spec_registrations().as_ref(),
    {
        proof {
            use_type_invariant(self);
        }
        broadcast use vstd::std_specs::slice::group_slice_axioms;
        self.registrations.as_slice().iter()
    }
}

/// Within a registry under construction, an earlier record has the identifier
/// exactly when an entry has it.
proof fn lemma_ids_match_taken(input: Seq<DeviceRegistration>, entries: Seq<DeviceRegistration>, j: int)
    requires
        0 <= j <= input.len(),
        entries.to_multiset() == input.take(j).to_multiset(),
    ensures
        forall|x: Seq<char>|
            #[trigger] registration_ids(entries).contains(x) <==> registration_ids(input.take(j)).contains(x),
{
    let taken = input.take(j);
    assert forall|x: Seq<char>| #[trigger] registration_ids(entries).contains(x) <==> registration_ids(taken).contains(x) by {
        if registration_ids(entries).contains(x) {
            let k = choose|k: int| 0 <= k < entries.len() && registration_ids(entries)[k] == x;
            vstd::seq_lib::to_multiset_contains(entries, entries[k]);
            vstd::seq_lib::to_multiset_contains(taken, entries[k]);
            let m = choose|m: int| 0 <= m < taken.len() && taken[m] == entries[k];
            assert(registration_ids(taken)[m] == x);
        }
        if registration_ids(taken).contains(x) {
            let k = choose|k: int| 0 <= k < taken.len() && registration_ids(taken)[k] == x;
            vstd::seq_lib::to_multiset_contains(taken, taken[k]);
            vstd::seq_lib::to_multiset_contains(entries, taken[k]);
            let m = choose|m: int| 0 <= m < entries.len() && entries[m] == taken[k];
            assert(registration_ids(entries)[m] == x);
        }
    }
}

/// Every record validates and no two share a device identifier: when building
/// a registry succeeds.
pub open spec fn registry_accepts(s: Seq<DeviceRegistration>) -> bool {
    &&& forall|i: int| 0 <= i < s.len() ==> registration_ok(#[trigger] s[i])
    &&& forall|i: int, k: int| 0 <= i < k < s.len() ==> #[trigger] s[i].device_id@ != #[trigger] s[k].device_id@
}

proof fn lemma_no_fault_from(s: Seq<DeviceRegistration>, j: nat)
    requires
        j <= s.len(),
    ensures
        first_registry_fault(s, j) is None <==> (forall|i: int| j <= i < s.len() ==> registration_ok(#[trigger] s[i])
            && forall|k: int| 0 <= k < i ==> #[trigger] s[k].device_id@ != s[i].device_id@),
    decreases s.len() - j,
{
    if j < s.len() {
        lemma_no_fault_from(s, j + 1);
        let ids = registration_ids(s.take(j as int));
        if ids.contains(s[j as int].device_id@) {
            let k = choose|k: int| 0 <= k < ids.len() && ids[k] == s[j as int].device_id@;
            assert(s[k].device_id@ == s[j as int].device_id@);
        }
        if exists|k: int| 0 <= k < j && #[trigger] s[k].device_id@ == s[j as int].device_id@ {
            let k = choose|k: int| 0 <= k < j && #[trigger] s[k].device_id@ == s[j as int].device_id@;
            assert(ids[k] == s[j as int].device_id@);
        }
    }
}

/// Building a registry succeeds exactly when every record validates and no two
/// share a device identifier.
pub proof fn lemma_registry_fault_free(s: Seq<DeviceRegistration>)
    ensures
        first_registry_fault(s, 0) is None <==> registry_accepts(s),
{
    lemma_no_fault_from(s, 0);
    if first_registry_fault(s, 0) is None {
        assert forall|i: int, k: int| 0 <= i < k < s.len() implies #[trigger] s[i].device_id@ != #[trigger] s[k].device_id@ by {
            assert(registration_ok(s[k]) && forall|m: int| 0 <= m < k ==> #[trigger] s[m].device_id@ != s[k].device_id@);
        }
    }
    if registry_accepts(s) {
        assert forall|i: int| 0 <= i < s.len() implies registration_ok(#[trigger] s[i]) && forall|k: int|
            0 <= k < i ==> #[trigger] s[k].device_id@ != s[i].device_id@ by {
            assert forall|k: int| 0 <= k < i implies #[trigger] s[k].device_id@ != s[i].device_id@ by {
                assert(s[k].device_id@ != s[i].device_id@);
            }
        }
    }
}

/// A record at a position of `s` is somewhere in `t` when both hold the same
/// records.
proof fn lemma_same_records_member(s: Seq<DeviceRegistration>, t: Seq<DeviceRegistration>, i: int) -> (p: int)
    requires
        s.to_multiset() == t.to_multiset(),
        0 <= i < s.len(),
    ensures
        0 <= p < t.len(),
        t[p] == s[i],
{
    vstd::seq_lib::to_multiset_contains(s, s[i]);
    vstd::seq_lib::to_multiset_contains(t, s[i]);
    assert(s.contains(s[i]));
    choose|p: int| 0 <= p < t.len() && t[p] == s[i]
}

proof fn lemma_accepts_transfers(a: Seq<DeviceRegistration>, b: Seq<DeviceRegistration>)
    requires
        a.to_multiset() == b.to_multiset(),
        registry_accepts(a),
    ensures
        registry_accepts(b),
{
    assert forall|i: int| 0 <= i < b.len() implies registration_ok(#[trigger] b[i]) by {
        let p = lemma_same_records_member(b, a, i);
    }
    assert forall|i: int, k: int| 0 <= i < k < b.len() implies #[trigger] b[i].device_id@ != #[trigger] b[k].device_id@ by {
        if b[i].device_id@ == b[k].device_id@ {
            let p = lemma_same_records_member(b, a, i);
            if b[i] == b[k] {
                let rb = b.remove(k);
                vstd::seq_lib::to_multiset_remove(b, k);
                assert(rb[i] == b[i]);
                vstd::seq_lib::to_multiset_contains(rb, b[i]);
                assert(rb.contains(b[i]));
                let ra = a.remove(p);
                vstd::seq_lib::to_multiset_remove(a, p);
                assert(ra.to_multiset() == rb.to_multiset());
                let q = lemma_same_records_member(rb, ra, i);
                let q2 = if q < p { q } else { q + 1 };
                assert(a[q2] == ra[q]);
                assert(a[q2].device_id@ == a[p].device_id@);
                if q2 < p {
                    assert(a[q2].device_id@ != a[p].device_id@);
                } else {
                    assert(a[p].device_id@ != a[q2].device_id@);
                }
            } else {
                let q = lemma_same_records_member(b, a, k);
                assert(p != q);
                if p < q {
                    assert(a[p].device_id@ != a[q].device_id@);
                } else {
                    assert(a[q].device_id@ != a[p].device_id@);
                }
            }
        }
    }
}

/// Law: whether a registry can be built does not depend on the order in which
/// its records are given.
pub proof fn lemma_registry_acceptance_ignores_order(a: Seq<DeviceRegistration>, b: Seq<DeviceRegistration>)
    requires
        a.to_multiset() == b.to_multiset(),
    ensures
        first_registry_fault(a, 0) is None <==> first_registry_fault(b, 0) is None,
{
    lemma_registry_fault_free(a);
    lemma_registry_fault_free(b);
    if registry_accepts(a) {
        lemma_accepts_transfers(a, b);
    }
    if registry_accepts(b) {
        lemma_accepts_transfers(b, a);
    }
}

/// Law: building registries from the same records in two input orders succeeds
/// for both or for neither, and when it succeeds the two registries hold the
/// same records in the same order. The premises on `r1` and `r2` are what
/// `DeviceRegistry::new` promises of an accepted input.
pub proof fn lemma_registries_ignore_input_order(
    a: Seq<DeviceRegistration>,
    b: Seq<DeviceRegistration>,
    r1: DeviceRegistry,
    r2: DeviceRegistry,
)
    requires
        a.to_multiset() == b.to_multiset(),
        r1.spec_registrations().to_multiset() == a.to_multiset(),
        texts_sorted(registration_ids(r1.spec_registrations())),
        r2.spec_registrations().to_multiset() == b.to_multiset(),
        texts_sorted(registration_ids(r2.spec_registrations())),
    ensures
        first_registry_fault(a, 0) is None <==> first_registry_fault(b, 0) is None,
        r1.spec_registrations() == r2.spec_registrations(),
{
    lemma_registry_acceptance_ignores_order(a, b);
    lemma_registry_order_unique(r1.spec_registrations(), r2.spec_registrations());
}

/// Law: in a registry's order no two records share a device identifier, so
/// the record that a lookup by identifier finds is the one stored there, and
/// every stored record is found again by its own identifier.
pub proof fn lemma_registry_ids_unique(regs: Seq<DeviceRegistration>, j: int, k: int)
    requires
        texts_sorted(registration_ids(regs)),
        0 <= j < regs.len(),
        0 <= k < regs.len(),
        regs[j].device_id@ == regs[k].device_id@,
    ensures
        j == k,
{
    let ids = registration_ids(regs);
    assert(ids[j] == regs[j].device_id@ && ids[k] == regs[k].device_id@);
    if j < k {
        assert(lex_less(ids[j], ids[k]));
        lemma_lex_trichotomy(ids[j], ids[k]);
    } else if k < j {
        assert(lex_less(ids[k], ids[j]));
        lemma_lex_trichotomy(ids[k], ids[j]);
    }
}

/// Law: a registry's order is determined by its contents. Two lists of
/// registrations in ascending, distinct device identifier order that hold the
/// same records are the same list; so registries built from the same records
/// in any input order iterate alike.
pub proof fn lemma_registry_order_unique(a: Seq<DeviceRegistration>, b: Seq<DeviceRegistration>)
    requires
        texts_sorted(registration_ids(a)),
        texts_sorted(registration_ids(b)),
        a.to_multiset() == b.to_multiset(),
    ensures
        a == b,
    decreases a.len(),
{
    vstd::seq_lib::to_multiset_len(a);
    vstd::seq_lib::to_multiset_len(b);
    if a.len() == 0 {
        assert(a =~= b);
    } else {
        vstd::seq_lib::to_multiset_contains(a, a[0]);
        vstd::seq_lib::to_multiset_contains(b, a[0]);
        vstd::seq_lib::to_multiset_contains(b, b[0]);
        vstd::seq_lib::to_multiset_contains(a, b[0]);
        assert(a.contains(a[0]));
        assert(b.contains(b[0]));
        let k = choose|k: int| 0 <= k < b.len() && b[k] == a[0];
        let m = choose|m: int| 0 <= m < a.len() && a[m] == b[0];
        let ia = registration_ids(a);
        let ib = registration_ids(b);
        if k > 0 {
            assert(lex_less(ib[0], ib[k]));
            if m > 0 {
                assert(lex_less(ia[0], ia[m]));
                crate::text::lemma_lex_transitive(ib[0], ib[k], ia[m]);
                lemma_lex_trichotomy(ib[0], ib[0]);
            } else {
                lemma_lex_trichotomy(ib[0], ib[0]);
            }
        }
        assert(a[0] == b[0]);
        vstd::seq_lib::to_multiset_remove(a, 0);
        vstd::seq_lib::to_multiset_remove(b, 0);
        assert(a.remove(0) =~= a.drop_first());
        assert(b.remove(0) =~= b.drop_first());
        let ta = a.drop_first();
        let tb = b.drop_first();
        assert(registration_ids(ta) =~= ia.drop_first());
        assert(registration_ids(tb) =~= ib.drop_first());
        lemma_registry_order_unique(ta, tb);
        assert(a =~= seq![a[0]] + ta);
        assert(b =~= seq![b[0]] + tb);
    }
}

} // verus!
