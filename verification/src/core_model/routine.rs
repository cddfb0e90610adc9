//! Recurrence metadata of routine Objectives; expansion and timezone resolution
//! belong to the planner.
use vstd::prelude::*;
use vstd::string::StringExecFns;
use vstd::utf8::encode_utf8;

use crate::core_model::task::{
    category_tag_outcome, check_tags, estimate_outcome, lemma_first_error_stays, tags_outcome,
    validate_category_tag, TaskDurationEstimate,
};
use crate::errors::{first_error, outcome_of, then_check, UbuError};
use crate::foreign::{
    local_date_text, local_time_text, parse_date, parse_time_of_day, regex_is_match,
    timezone_shape, DATE_DESCRIPTION, TIME_DESCRIPTION, TIMEZONE_PATTERN,
};
use crate::id_registry::ObjectType;
use crate::ids::{id_object_type, UbuId};
use crate::text::{decimal, join, lex_less, str_eq, str_less, u64_decimal};

verus! {

#[derive(Debug, Clone, Copy, PartialEq, Eq, Structural)]
pub enum ObjectiveMode {
    OneTime,
    Evergreen,
}

impl ObjectiveMode {
    pub fn is_one_time(&self) -> (r: bool)
        ensures
            r == (*self == ObjectiveMode::OneTime),
    {
        *self == ObjectiveMode::OneTime
    }
}

impl Default for ObjectiveMode {
    fn default() -> (r: ObjectiveMode)
        ensures
            r == ObjectiveMode::OneTime,
    {
        ObjectiveMode::OneTime
    }
}

#[derive(Debug, Clone, Copy, PartialEq, Eq, Structural)]
pub enum Weekday {
    Mon,
    Tue,
    Wed,
    Thu,
    Fri,
    Sat,
    Sun,
}

#[derive(Debug, PartialEq, Eq)]
pub enum RecurrenceRule {
    Daily,
    Weekly { weekdays: Vec<Weekday> },
    MonthlyDay { days: Vec<u8> },
    FirstWorkdayOfMonth,
    FirstWorkdayOfQuarter,
}

#[derive(Debug, PartialEq, Eq)]
pub struct RecurrenceSchedule {
    pub timezone: String,
    pub rule: RecurrenceRule,
    pub enabled_from: Option<String>,
    pub enabled_until: Option<String>,
    pub exdates: Vec<String>,
    pub schedule_version: u64,
}

#[derive(Debug, Clone, Copy, PartialEq, Eq, Structural)]
pub enum RoutinePlacement {
    Static,
    Planned,
}

pub open spec fn placement_wire(p: RoutinePlacement) -> Seq<char> {
    match p {
        RoutinePlacement::Static => "static"@,
        RoutinePlacement::Planned => "planned"@,
    }
}

impl RoutinePlacement {
    /// The wire spelling of this placement.
    pub fn as_str(self) -> (r: &'static str)
        ensures
            r@ == placement_wire(self),
    {
        match self {
            RoutinePlacement::Static => "static",
            RoutinePlacement::Planned => "planned",
        }
    }
}

#[derive(Debug, PartialEq, Eq)]
pub struct LocalTimeRange {
    pub earliest: String,
    pub latest: String,
}

#[derive(Debug, PartialEq, Eq)]
pub struct RoutineAfter {
    pub objective_id: UbuId,
    /// Earliest this occurrence may start, measured from the predecessor's end.
    pub minimum_seconds: i64,
    /// Latest this occurrence may start, measured from the same point.
    pub maximum_seconds: Option<i64>,
}

#[derive(Debug, PartialEq, Eq)]
pub struct RoutineInstanceTemplate {
    pub title: String,
    pub duration_estimate: TaskDurationEstimate,
    pub tags: Vec<String>,
    pub category_tag: Option<String>,
    pub reminder_minutes: Vec<i64>,
    pub nominal_start: String,
    pub placement: RoutinePlacement,
    pub allowed_local_range: Option<LocalTimeRange>,
    pub occupies_capacity: bool,
    pub after: Vec<RoutineAfter>,
    pub template_version: u64,
}

#[derive(Debug, PartialEq, Eq)]
pub struct TaskOccurrence {
    pub routine_objective_id: UbuId,
    pub local_date: String,
    pub key: String,
}

/// The occurrence key of one routine occurrence.
pub open spec fn occurrence_key_text(
    objective_id: Seq<char>,
    schedule_version: u64,
    local_date: Seq<char>,
    nominal_start: Seq<char>,
    placement: RoutinePlacement,
    template_version: u64,
) -> Seq<char> {
    objective_id + "/s"@ + decimal(schedule_version as nat) + "/"@ + local_date + "T"@ + nominal_start + "/"@
        + placement_wire(placement) + "/t"@ + decimal(template_version as nat)
}

/// `a + x + b == a + y + b` only when `x == y`.
proof fn lemma_cancel_around(a: Seq<char>, x: Seq<char>, y: Seq<char>, b: Seq<char>)
    requires
        a + x + b == a + y + b,
    ensures
        x == y,
{
    let l = a + x + b;
    assert(l.len() == a.len() + x.len() + b.len());
    assert((a + y + b).len() == a.len() + y.len() + b.len());
    assert(x.len() == y.len());
    assert(l.subrange(a.len() as int, (a.len() + x.len()) as int) =~= x);
    assert((a + y + b).subrange(a.len() as int, (a.len() + y.len()) as int) =~= y);
}

/// Distinct numbers have distinct decimal spellings.
proof fn lemma_decimal_injective(m: nat, n: nat)
    requires
        decimal(m) == decimal(n),
    ensures
        m == n,
{
    crate::store::mutation_envelope::lemma_digits_of_decimal(m);
    crate::store::mutation_envelope::lemma_digits_of_decimal(n);
}

/// The occurrence key from its spelled parts.
pub open spec fn key_from_parts(
    o: Seq<char>,
    sv: Seq<char>,
    d: Seq<char>,
    ns: Seq<char>,
    w: Seq<char>,
    tv: Seq<char>,
) -> Seq<char> {
    o + "/s"@ + sv + "/"@ + d + "T"@ + ns + "/"@ + w + "/t"@ + tv
}

proof fn lemma_key_objective(o: Seq<char>, o2: Seq<char>, sv: Seq<char>, d: Seq<char>, ns: Seq<char>, w: Seq<char>, tv: Seq<char>)
    requires
        key_from_parts(o, sv, d, ns, w, tv) == key_from_parts(o2, sv, d, ns, w, tv),
    ensures
        o == o2,
{
    let e = Seq::<char>::empty();
    let b = "/s"@ + sv + "/"@ + d + "T"@ + ns + "/"@ + w + "/t"@ + tv;
    assert(key_from_parts(o, sv, d, ns, w, tv) =~= e + o + b);
    assert(key_from_parts(o2, sv, d, ns, w, tv) =~= e + o2 + b);
    lemma_cancel_around(e, o, o2, b);
}

proof fn lemma_key_schedule(o: Seq<char>, sv: Seq<char>, sv2: Seq<char>, d: Seq<char>, ns: Seq<char>, w: Seq<char>, tv: Seq<char>)
    requires
        key_from_parts(o, sv, d, ns, w, tv) == key_from_parts(o, sv2, d, ns, w, tv),
    ensures
        sv == sv2,
{
    let a = o + "/s"@;
    let b = "/"@ + d + "T"@ + ns + "/"@ + w + "/t"@ + tv;
    assert(key_from_parts(o, sv, d, ns, w, tv) =~= a + sv + b);
    assert(key_from_parts(o, sv2, d, ns, w, tv) =~= a + sv2 + b);
    lemma_cancel_around(a, sv, sv2, b);
}

proof fn lemma_key_date(o: Seq<char>, sv: Seq<char>, d: Seq<char>, d2: Seq<char>, ns: Seq<char>, w: Seq<char>, tv: Seq<char>)
    requires
        key_from_parts(o, sv, d, ns, w, tv) == key_from_parts(o, sv, d2, ns, w, tv),
    ensures
        d == d2,
{
    let a = o + "/s"@ + sv + "/"@;
    let b = "T"@ + ns + "/"@ + w + "/t"@ + tv;
    assert(key_from_parts(o, sv, d, ns, w, tv) =~= a + d + b);
    assert(key_from_parts(o, sv, d2, ns, w, tv) =~= a + d2 + b);
    lemma_cancel_around(a, d, d2, b);
}

proof fn lemma_key_start(o: Seq<char>, sv: Seq<char>, d: Seq<char>, ns: Seq<char>, ns2: Seq<char>, w: Seq<char>, tv: Seq<char>)
    requires
        key_from_parts(o, sv, d, ns, w, tv) == key_from_parts(o, sv, d, ns2, w, tv),
    ensures
        ns == ns2,
{
    let a = o + "/s"@ + sv + "/"@ + d + "T"@;
    let b = "/"@ + w + "/t"@ + tv;
    assert(key_from_parts(o, sv, d, ns, w, tv) =~= a + ns + b);
    assert(key_from_parts(o, sv, d, ns2, w, tv) =~= a + ns2 + b);
    lemma_cancel_around(a, ns, ns2, b);
}

proof fn lemma_key_placement(o: Seq<char>, sv: Seq<char>, d: Seq<char>, ns: Seq<char>, w: Seq<char>, w2: Seq<char>, tv: Seq<char>)
    requires
        key_from_parts(o, sv, d, ns, w, tv) == key_from_parts(o, sv, d, ns, w2, tv),
    ensures
        w == w2,
{
    let a = o + "/s"@ + sv + "/"@ + d + "T"@ + ns + "/"@;
    let b = "/t"@ + tv;
    assert(key_from_parts(o, sv, d, ns, w, tv) =~= a + w + b);
    assert(key_from_parts(o, sv, d, ns, w2, tv) =~= a + w2 + b);
    lemma_cancel_around(a, w, w2, b);
}

proof fn lemma_key_template(o: Seq<char>, sv: Seq<char>, d: Seq<char>, ns: Seq<char>, w: Seq<char>, tv: Seq<char>, tv2: Seq<char>)
    requires
        key_from_parts(o, sv, d, ns, w, tv) == key_from_parts(o, sv, d, ns, w, tv2),
    ensures
        tv == tv2,
{
    let a = o + "/s"@ + sv + "/"@ + d + "T"@ + ns + "/"@ + w + "/t"@;
    let e = Seq::<char>::empty();
    assert(key_from_parts(o, sv, d, ns, w, tv) =~= a + tv + e);
    assert(key_from_parts(o, sv, d, ns, w, tv2) =~= a + tv2 + e);
    lemma_cancel_around(a, tv, tv2, e);
}

/// Law: an occurrence key tells apart occurrences that differ in any one of its
/// inputs: the objective, the schedule version, the local date, the nominal
/// start, the placement or the template version. In particular a planned and a
/// static occurrence never share a key.
pub proof fn lemma_occurrence_key_separates(
    objective_id: Seq<char>,
    schedule_version: u64,
    local_date: Seq<char>,
    nominal_start: Seq<char>,
    placement: RoutinePlacement,
    template_version: u64,
    other_objective_id: Seq<char>,
    other_schedule_version: u64,
    other_local_date: Seq<char>,
    other_nominal_start: Seq<char>,
    other_placement: RoutinePlacement,
    other_template_version: u64,
)
    ensures
        occurrence_key_text(objective_id, schedule_version, local_date, nominal_start, placement, template_version)
            == occurrence_key_text(other_objective_id, schedule_version, local_date, nominal_start, placement, template_version)
            ==> objective_id == other_objective_id,
        occurrence_key_text(objective_id, schedule_version, local_date, nominal_start, placement, template_version)
            == occurrence_key_text(objective_id, other_schedule_version, local_date, nominal_start, placement, template_version)
            ==> schedule_version == other_schedule_version,
        occurrence_key_text(objective_id, schedule_version, local_date, nominal_start, placement, template_version)
            == occurrence_key_text(objective_id, schedule_version, other_local_date, nominal_start, placement, template_version)
            ==> local_date == other_local_date,
        occurrence_key_text(objective_id, schedule_version, local_date, nominal_start, placement, template_version)
            == occurrence_key_text(objective_id, schedule_version, local_date, other_nominal_start, placement, template_version)
            ==> nominal_start == other_nominal_start,
        occurrence_key_text(objective_id, schedule_version, local_date, nominal_start, placement, template_version)
            == occurrence_key_text(objective_id, schedule_version, local_date, nominal_start, other_placement, template_version)
            ==> placement == other_placement,
        occurrence_key_text(objective_id, schedule_version, local_date, nominal_start, placement, template_version)
            == occurrence_key_text(objective_id, schedule_version, local_date, nominal_start, placement, other_template_version)
            ==> template_version == other_template_version,
{
    let o = objective_id;
    let sv = decimal(schedule_version as nat);
    let d = local_date;
    let ns = nominal_start;
    let w = placement_wire(placement);
    let tv = decimal(template_version as nat);
    let sv2 = decimal(other_schedule_version as nat);
    let w2 = placement_wire(other_placement);
    let tv2 = decimal(other_template_version as nat);
    let k = occurrence_key_text(o, schedule_version, d, ns, placement, template_version);
    assert(k == key_from_parts(o, sv, d, ns, w, tv));
    if k == occurrence_key_text(other_objective_id, schedule_version, d, ns, placement, template_version) {
        lemma_key_objective(o, other_objective_id, sv, d, ns, w, tv);
    }
    if k == occurrence_key_text(o, other_schedule_version, d, ns, placement, template_version) {
        lemma_key_schedule(o, sv, sv2, d, ns, w, tv);
        lemma_decimal_injective(schedule_version as nat, other_schedule_version as nat);
    }
    if k == occurrence_key_text(o, schedule_version, other_local_date, ns, placement, template_version) {
        lemma_key_date(o, sv, d, other_local_date, ns, w, tv);
    }
    if k == occurrence_key_text(o, schedule_version, d, other_nominal_start, placement, template_version) {
        lemma_key_start(o, sv, d, ns, other_nominal_start, w, tv);
    }
    if k == occurrence_key_text(o, schedule_version, d, ns, other_placement, template_version) {
        lemma_key_placement(o, sv, d, ns, w, w2, tv);
        reveal_strlit("static");
        reveal_strlit("planned");
        if placement != other_placement {
            assert(w.len() != w2.len());
        }
    }
    if k == occurrence_key_text(o, schedule_version, d, ns, placement, other_template_version) {
        lemma_key_template(o, sv, d, ns, w, tv, tv2);
        lemma_decimal_injective(template_version as nat, other_template_version as nat);
    }
}

/// `{objective}/s{schedule_version}/{local_date}T{nominal_start}/{placement}/t{template_version}`.
pub fn routine_occurrence_key(
    objective_id: &UbuId,
    schedule_version: u64,
    local_date: &str,
    nominal_start: &str,
    placement: RoutinePlacement,
    template_version: u64,
) -> (r: String)
    ensures
        r@ == occurrence_key_text(objective_id@, schedule_version, local_date@, nominal_start@, placement, template_version),
{
    let mut r = objective_id.as_str().to_owned();
    r = join(r, "/s");
    r = join(r, u64_decimal(schedule_version).as_str());
    r = join(r, "/");
    r = join(r, local_date);
    r = join(r, "T");
    r = join(r, nominal_start);
    r = join(r, "/");
    r = join(r, placement.as_str());
    r = join(r, "/t");
    r = join(r, u64_decimal(template_version).as_str());
    r
}

/// `UTC`, or an `Area/Location` name.
pub open spec fn timezone_ok(s: Seq<char>) -> bool {
    s == "UTC"@ || timezone_shape(s)
}

pub fn validate_timezone(value: &str) -> (r: Result<(), UbuError>)
    ensures
        r is Ok <==> timezone_ok(value@),
        r matches Err(e) ==> e == UbuError::InvalidRecurrenceTimezone,
{
    if !str_eq(value, "UTC") {
        match regex_is_match(TIMEZONE_PATTERN, value) {
            Some(true) => {},
            _ => {
                return Err(UbuError::InvalidRecurrenceTimezone);
            },
        }
    }
    Ok(())
}

/// A `YYYY-MM-DD` calendar date of exactly ten bytes.
pub open spec fn is_local_date(s: Seq<char>) -> bool {
    encode_utf8(s).len() == 10 && local_date_text(s)
}

/// An `HH:MM:SS` time of day of exactly eight bytes.
pub open spec fn is_local_time(s: Seq<char>) -> bool {
    encode_utf8(s).len() == 8 && local_time_text(s)
}

pub fn validate_local_date(value: &str) -> (r: Result<(), UbuError>)
    ensures
        r is Ok <==> is_local_date(value@),
        r matches Err(e) ==> e == UbuError::InvalidRecurrenceDate,
{
    if value.as_bytes().len() != 10 {
        return Err(UbuError::InvalidRecurrenceDate);
    }
    match parse_date(DATE_DESCRIPTION, value) {
        Some(true) => Ok(()),
        _ => Err(UbuError::InvalidRecurrenceDate),
    }
}

pub fn validate_local_time(value: &str) -> (r: Result<(), UbuError>)
    ensures
        r is Ok <==> is_local_time(value@),
        r matches Err(e) ==> e == UbuError::InvalidRoutineLocalTime,
{
    if value.as_bytes().len() != 8 {
        return Err(UbuError::InvalidRoutineLocalTime);
    }
    match parse_time_of_day(TIME_DESCRIPTION, value) {
        Some(true) => Ok(()),
        _ => Err(UbuError::InvalidRoutineLocalTime),
    }
}

pub open spec fn has_duplicate_weekday(s: Seq<Weekday>) -> bool {
    exists|i: int, j: int| 0 <= i < j < s.len() && s[i] == s[j]
}

pub open spec fn has_duplicate_day(s: Seq<u8>) -> bool {
    exists|i: int, j: int| 0 <= i < j < s.len() && s[i] == s[j]
}

pub open spec fn has_duplicate_text(s: Seq<String>) -> bool {
    exists|i: int, j: int| 0 <= i < j < s.len() && s[i]@ == s[j]@
}

#[verifier::loop_isolation(false)]
fn duplicate_weekday(s: &Vec<Weekday>) -> (r: bool)
    ensures
        r == has_duplicate_weekday(s@),
{
    let mut j: usize = 0;
    while j < s.len()
        invariant
            j <= s@.len(),
            forall|a: int, b: int| 0 <= a < b < j ==> s@[a] != s@[b],
        decreases s@.len() - j,
    {
        let mut i: usize = 0;
        while i < j
            invariant
                j < s@.len(),
                i <= j,
                forall|a: int| 0 <= a < i ==> s@[a] != s@[j as int],
            decreases j - i,
        {
            if s[i] == s[j] {
                return true;
            }
            i = i + 1;
        }
        j = j + 1;
    }
    false
}

#[verifier::loop_isolation(false)]
fn duplicate_day(s: &Vec<u8>) -> (r: bool)
    ensures
        r == has_duplicate_day(s@),
{
    let mut j: usize = 0;
    while j < s.len()
        invariant
            j <= s@.len(),
            forall|a: int, b: int| 0 <= a < b < j ==> s@[a] != s@[b],
        decreases s@.len() - j,
    {
        let mut i: usize = 0;
        while i < j
            invariant
                j < s@.len(),
                i <= j,
                forall|a: int| 0 <= a < i ==> s@[a] != s@[j as int],
            decreases j - i,
        {
            if s[i] == s[j] {
                return true;
            }
            i = i + 1;
        }
        j = j + 1;
    }
    false
}

#[verifier::loop_isolation(false)]
fn duplicate_text(s: &Vec<String>) -> (r: bool)
    ensures
        r == has_duplicate_text(s@),
{
    let mut j: usize = 0;
    while j < s.len()
        invariant
            j <= s@.len(),
            forall|a: int, b: int| 0 <= a < b < j ==> s@[a]@ != s@[b]@,
        decreases s@.len() - j,
    {
        let mut i: usize = 0;
        while i < j
            invariant
                j < s@.len(),
                i <= j,
                forall|a: int| 0 <= a < i ==> s@[a]@ != s@[j as int]@,
            decreases j - i,
        {
            if s[i] == s[j] {
                return true;
            }
            i = i + 1;
        }
        j = j + 1;
    }
    false
}

pub open spec fn rule_outcome(rule: RecurrenceRule) -> Result<(), UbuError> {
    match rule {
        RecurrenceRule::Weekly { weekdays } => if weekdays@.len() == 0 {
            Err(UbuError::EmptyRecurrenceWeekdays)
        } else if has_duplicate_weekday(weekdays@) {
            Err(UbuError::DuplicateRecurrenceWeekday)
        } else {
            Ok(())
        },
        RecurrenceRule::MonthlyDay { days } => if days@.len() == 0 {
            Err(UbuError::EmptyRecurrenceDays)
        } else if exists|i: int| 0 <= i < days@.len() && !(1 <= #[trigger] days@[i] <= 31) {
            Err(UbuError::InvalidRecurrenceDay)
        } else if has_duplicate_day(days@) {
            Err(UbuError::DuplicateRecurrenceDay)
        } else {
            Ok(())
        },
        _ => Ok(()),
    }
}

pub open spec fn optional_date_outcome(d: Option<String>) -> Result<(), UbuError> {
    match d {
        Some(s) => if is_local_date(s@) { Ok(()) } else { Err(UbuError::InvalidRecurrenceDate) },
        None => Ok(()),
    }
}

pub open spec fn exdate_error(exdates: Seq<String>, i: int) -> Option<UbuError> {
    if is_local_date(exdates[i]@) { None } else { Some(UbuError::InvalidRecurrenceDate) }
}

pub open spec fn window_order_outcome(from: Option<String>, until: Option<String>) -> Result<(), UbuError> {
    match (from, until) {
        (Some(f), Some(u)) => if lex_less(u@, f@) {
            Err(UbuError::InvalidRecurrenceEnablementWindow)
        } else {
            Ok(())
        },
        _ => Ok(()),
    }
}

/// Every rule of a recurrence schedule, in the order they are checked.
pub open spec fn schedule_outcome(s: RecurrenceSchedule) -> Result<(), UbuError> {
    if !timezone_ok(s.timezone@) {
        Err(UbuError::InvalidRecurrenceTimezone)
    } else if s.schedule_version == 0 {
        Err(UbuError::ZeroScheduleVersion)
    } else {
        then_check(
            rule_outcome(s.rule),
            then_check(
                optional_date_outcome(s.enabled_from),
                then_check(
                    optional_date_outcome(s.enabled_until),
                    then_check(
                        outcome_of(first_error(s.exdates@.len() as int, |i: int| exdate_error(s.exdates@, i))),
                        then_check(
                            window_order_outcome(s.enabled_from, s.enabled_until),
                            if has_duplicate_text(s.exdates@) {
                                Err(UbuError::DuplicateRecurrenceExdate)
                            } else {
                                Ok(())
                            },
                        ),
                    ),
                ),
            ),
        )
    }
}

#[verifier::loop_isolation(false)]
fn check_rule(rule: &RecurrenceRule) -> (r: Result<(), UbuError>)
    ensures
        r == rule_outcome(*rule),
{
    match rule {
        RecurrenceRule::Weekly { weekdays } => {
            if weekdays.len() == 0 {
                return Err(UbuError::EmptyRecurrenceWeekdays);
            }
            if duplicate_weekday(weekdays) {
                return Err(UbuError::DuplicateRecurrenceWeekday);
            }
            Ok(())
        },
        RecurrenceRule::MonthlyDay { days } => {
            if days.len() == 0 {
                return Err(UbuError::EmptyRecurrenceDays);
            }
            let mut i: usize = 0;
            while i < days.len()
                invariant
                    i <= days@.len(),
                    forall|k: int| 0 <= k < i ==> 1 <= #[trigger] days@[k] <= 31,
                decreases days@.len() - i,
            {
                if !(1 <= days[i] && days[i] <= 31) {
                    assert(!(1 <= days@[i as int] <= 31));
                    return Err(UbuError::InvalidRecurrenceDay);
                }
                i = i + 1;
            }
            if duplicate_day(days) {
                return Err(UbuError::DuplicateRecurrenceDay);
            }
            Ok(())
        },
        _ => Ok(()),
    }
}

fn check_optional_date(d: &Option<String>) -> (r: Result<(), UbuError>)
    ensures
        r == optional_date_outcome(*d),
{
    match d {
        Some(s) => {
            if validate_local_date(s.as_str()).is_err() {
                return Err(UbuError::InvalidRecurrenceDate);
            }
            Ok(())
        },
        None => Ok(()),
    }
}

#[verifier::loop_isolation(false)]
fn check_exdates(exdates: &Vec<String>) -> (r: Result<(), UbuError>)
    ensures
        r == outcome_of(first_error(exdates@.len() as int, |i: int| exdate_error(exdates@, i))),
{
    let ghost f = |i: int| exdate_error(exdates@, i);
    let mut i: usize = 0;
    while i < exdates.len()
        invariant
            i <= exdates@.len(),
            f == (|i: int| exdate_error(exdates@, i)),
            first_error(i as int, f) is None,
        decreases exdates@.len() - i,
    {
        if validate_local_date(exdates[i].as_str()).is_err() {
            assert(first_error(i + 1, f) == Some(UbuError::InvalidRecurrenceDate));
            proof { lemma_first_error_stays(i + 1, exdates@.len() as int, f); }
            return Err(UbuError::InvalidRecurrenceDate);
        }
        i = i + 1;
    }
    Ok(())
}

impl RecurrenceSchedule {
    /// Check the timezone, version, rule, dates, enablement window and exdates.
    pub fn validate(&self) -> (r: Result<(), UbuError>)
        ensures
            r == schedule_outcome(*self),
    {
        validate_timezone(self.timezone.as_str())?;
        if self.schedule_version == 0 {
            return Err(UbuError::ZeroScheduleVersion);
        }
        check_rule(&self.rule)?;
        check_optional_date(&self.enabled_from)?;
        check_optional_date(&self.enabled_until)?;
        check_exdates(&self.exdates)?;
        match (&self.enabled_from, &self.enabled_until) {
            (Some(from), Some(until)) => {
                if str_less(until.as_str(), from.as_str()) {
                    return Err(UbuError::InvalidRecurrenceEnablementWindow);
                }
            },
            _ => {},
        }
        if duplicate_text(&self.exdates) {
            return Err(UbuError::DuplicateRecurrenceExdate);
        }
        Ok(())
    }
}

pub open spec fn after_error(after: Seq<RoutineAfter>, i: int) -> Option<UbuError> {
    if id_object_type(after[i].objective_id@) != ObjectType::Objective {
        Some(UbuError::InvalidRoutineAfterObjective)
    } else if after[i].minimum_seconds < 0 {
        Some(UbuError::NegativeRoutineAfterOffset)
    } else if after[i].maximum_seconds matches Some(m) && m < after[i].minimum_seconds {
        Some(UbuError::InvertedRoutineAfterBounds)
    } else {
        None
    }
}

pub open spec fn placement_outcome(p: RoutinePlacement, range: Option<LocalTimeRange>) -> Result<(), UbuError> {
    match (p, range) {
        (RoutinePlacement::Planned, None) => Err(UbuError::PlannedRoutineMissingRange),
        (RoutinePlacement::Static, Some(_)) => Err(UbuError::StaticRoutineWithRange),
        (RoutinePlacement::Planned, Some(r)) => if !is_local_time(r.earliest@) || !is_local_time(r.latest@) {
            Err(UbuError::InvalidRoutineLocalTime)
        } else if !lex_less(r.earliest@, r.latest@) {
            Err(UbuError::InvalidRoutineLocalRange)
        } else {
            Ok(())
        },
        (RoutinePlacement::Static, None) => Ok(()),
    }
}

pub open spec fn optional_category_outcome(category: Option<String>, tags: Seq<String>) -> Result<(), UbuError> {
    match category {
        Some(c) => category_tag_outcome(c@, tags),
        None => Ok(()),
    }
}

/// Every rule of a routine instance template, in the order they are checked.
pub open spec fn template_outcome(t: RoutineInstanceTemplate) -> Result<(), UbuError> {
    if t.title@.len() == 0 {
        Err(UbuError::EmptyRoutineTitle)
    } else {
        then_check(
            estimate_outcome(t.duration_estimate),
            if !is_local_time(t.nominal_start@) {
                Err(UbuError::InvalidRoutineNominalStart)
            } else if t.template_version == 0 {
                Err(UbuError::ZeroTemplateVersion)
            } else {
                then_check(
                    outcome_of(tags_outcome(t.tags@)),
                    then_check(
                        optional_category_outcome(t.category_tag, t.tags@),
                        if exists|i: int| 0 <= i < t.reminder_minutes@.len() && #[trigger] t.reminder_minutes@[i] < 0 {
                            Err(UbuError::NegativeRoutineReminder)
                        } else {
                            then_check(
                                outcome_of(first_error(t.after@.len() as int, |i: int| after_error(t.after@, i))),
                                placement_outcome(t.placement, t.allowed_local_range),
                            )
                        },
                    ),
                )
            },
        )
    }
}

#[verifier::loop_isolation(false)]
fn check_after(after: &Vec<RoutineAfter>) -> (r: Result<(), UbuError>)
    ensures
        r == outcome_of(first_error(after@.len() as int, |i: int| after_error(after@, i))),
{
    let ghost f = |i: int| after_error(after@, i);
    let mut i: usize = 0;
    while i < after.len()
        invariant
            i <= after@.len(),
            f == (|i: int| after_error(after@, i)),
            first_error(i as int, f) is None,
        decreases after@.len() - i,
    {
        let a = &after[i];
        let e = if a.objective_id.require_object_type(ObjectType::Objective).is_err() {
            Some(UbuError::InvalidRoutineAfterObjective)
        } else if a.minimum_seconds < 0 {
            Some(UbuError::NegativeRoutineAfterOffset)
        } else {
            match a.maximum_seconds {
                Some(m) => if m < a.minimum_seconds { Some(UbuError::InvertedRoutineAfterBounds) } else { None },
                None => None,
            }
        };
        match e {
            Some(x) => {
                assert(first_error(i + 1, f) == Some(x));
                proof { lemma_first_error_stays(i + 1, after@.len() as int, f); }
                return Err(x);
            },
            None => {},
        }
        i = i + 1;
    }
    Ok(())
}

fn check_placement(p: RoutinePlacement, range: &Option<LocalTimeRange>) -> (r: Result<(), UbuError>)
    ensures
        r == placement_outcome(p, *range),
{
    match (p, range) {
        (RoutinePlacement::Planned, None) => Err(UbuError::PlannedRoutineMissingRange),
        (RoutinePlacement::Static, Some(_)) => Err(UbuError::StaticRoutineWithRange),
        (RoutinePlacement::Planned, Some(r)) => {
            validate_local_time(r.earliest.as_str())?;
            validate_local_time(r.latest.as_str())?;
            if !str_less(r.earliest.as_str(), r.latest.as_str()) {
                return Err(UbuError::InvalidRoutineLocalRange);
            }
            Ok(())
        },
        (RoutinePlacement::Static, None) => Ok(()),
    }
}

impl RoutineInstanceTemplate {
    /// Check title, estimate, nominal start, version, tags, category, reminders,
    /// predecessors and placement.
    #[verifier::loop_isolation(false)]
    pub fn validate(&self) -> (r: Result<(), UbuError>)
        ensures
            r == template_outcome(*self),
    {
        if self.title.as_str().is_empty() {
            return Err(UbuError::EmptyRoutineTitle);
        }
        self.duration_estimate.validate()?;
        if validate_local_time(self.nominal_start.as_str()).is_err() {
            return Err(UbuError::InvalidRoutineNominalStart);
        }
        if self.template_version == 0 {
            return Err(UbuError::ZeroTemplateVersion);
        }
        check_tags(&self.tags)?;
        match &self.category_tag {
            Some(category) => {
                validate_category_tag(category.as_str(), self.tags.as_slice())?;
            },
            None => {},
        }
        let mut i: usize = 0;
        while i < self.reminder_minutes.len()
            invariant
                i <= self.reminder_minutes@.len(),
                forall|k: int| 0 <= k < i ==> #[trigger] self.reminder_minutes@[k] >= 0,
            decreases self.reminder_minutes@.len() - i,
        {
            if self.reminder_minutes[i] < 0 {
                assert(self.reminder_minutes@[i as int] < 0);
                return Err(UbuError::NegativeRoutineReminder);
            }
            i = i + 1;
        }
        check_after(&self.after)?;
        check_placement(self.placement, &self.allowed_local_range)
    }
}

pub open spec fn occurrence_outcome(o: TaskOccurrence) -> Result<(), UbuError> {
    if id_object_type(o.routine_objective_id@) != ObjectType::Objective {
        Err(UbuError::InvalidOccurrenceObjective)
    } else if !is_local_date(o.local_date@) {
        Err(UbuError::InvalidOccurrenceDate)
    } else if o.key@.len() == 0 {
        Err(UbuError::EmptyOccurrenceKey)
    } else {
        Ok(())
    }
}

impl TaskOccurrence {
    pub fn validate(&self) -> (r: Result<(), UbuError>)
        ensures
            r == occurrence_outcome(*self),
    {
        if self.routine_objective_id.require_object_type(ObjectType::Objective).is_err() {
            return Err(UbuError::InvalidOccurrenceObjective);
        }
        if validate_local_date(self.local_date.as_str()).is_err() {
            return Err(UbuError::InvalidOccurrenceDate);
        }
        if self.key.as_str().is_empty() {
            return Err(UbuError::EmptyOccurrenceKey);
        }
        Ok(())
    }
}

/// The cross-field routine rules of an Objective, in the order they are checked.
pub open spec fn objective_fields_outcome(
    id: Seq<char>,
    mode: ObjectiveMode,
    has_recurrence: bool,
    template: Option<&RoutineInstanceTemplate>,
    has_priority: bool,
) -> Result<(), UbuError> {
    if has_recurrence && mode != ObjectiveMode::Evergreen {
        Err(UbuError::RecurrenceRequiresEvergreen)
    } else if template is Some && !has_recurrence {
        Err(UbuError::RoutineTemplateRequiresRecurrence)
    } else if has_recurrence && has_priority {
        Err(UbuError::RoutineObjectiveWithPriority)
    } else if template matches Some(t) && exists|i: int| 0 <= i < t.after@.len() && #[trigger] t.after@[i].objective_id@ == id {
        Err(UbuError::RoutineAfterSelfReference)
    } else {
        Ok(())
    }
}

/// Shared cross-field rules for full Objective validation and piecemeal admission.
#[verifier::loop_isolation(false)]
pub fn validate_objective_routine_fields(
    id: &UbuId,
    mode: ObjectiveMode,
    recurrence: Option<&RecurrenceSchedule>,
    template: Option<&RoutineInstanceTemplate>,
    has_priority: bool,
) -> (r: Result<(), UbuError>)
    ensures
        r == objective_fields_outcome(id@, mode, recurrence is Some, template, has_priority),
{
    if recurrence.is_some() && mode != ObjectiveMode::Evergreen {
        return Err(UbuError::RecurrenceRequiresEvergreen);
    }
    if template.is_some() && recurrence.is_none() {
        return Err(UbuError::RoutineTemplateRequiresRecurrence);
    }
    if recurrence.is_some() && has_priority {
        return Err(UbuError::RoutineObjectiveWithPriority);
    }
    match template {
        Some(t) => {
            let mut i: usize = 0;
            while i < t.after.len()
                invariant
                    i <= t.after@.len(),
                    forall|k: int| 0 <= k < i ==> #[trigger] t.after@[k].objective_id@ != id@,
                decreases t.after@.len() - i,
            {
                if t.after[i].objective_id.same_as(id) {
                    assert(t.after@[i as int].objective_id@ == id@);
                    return Err(UbuError::RoutineAfterSelfReference);
                }
                i = i + 1;
            }
        },
        None => {},
    }
    Ok(())
}

} // verus!
