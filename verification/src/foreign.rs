//! Every call into an outside crate, each behind one trusted item. The contracts
//! here are believed, not proved: each doc comment says what is claimed.
use vstd::prelude::*;
use vstd::string::StringSliceAdditionalSpecFns;

verus! {

/// What `regex::Regex::new(pattern)` followed by `is_match(haystack)` gives:
/// `None` where the pattern does not compile.
pub uninterp spec fn regex_match_outcome(pattern: Seq<char>, haystack: Seq<char>) -> Option<bool>;

/// The identifier grammar `^[a-z]+_[0-9a-f]{12}7[0-9a-f]{3}[89ab][0-9a-f]{15}$`.
pub const UBU_ID_PATTERN: &'static str = "^[a-z]+_[0-9a-f]{12}7[0-9a-f]{3}[89ab][0-9a-f]{15}$";

/// The timezone grammar `^[A-Za-z_]+(/[A-Za-z0-9_+\-]+)+$`.
pub const TIMEZONE_PATTERN: &'static str = "^[A-Za-z_]+(/[A-Za-z0-9_+\\-]+)+$";

pub open spec fn is_lower_alpha(c: char) -> bool {
    'a' <= c && c <= 'z'
}

pub open spec fn is_lower_hex(c: char) -> bool {
    ('0' <= c && c <= '9') || ('a' <= c && c <= 'f')
}

/// 32 lowercase hexadecimal digits with the UUID version nibble 7 and an
/// RFC 4122 variant nibble (8, 9, a or b).
pub open spec fn uuid_v7_simple_text(t: Seq<char>) -> bool {
    &&& t.len() == 32
    &&& forall|i: int| 0 <= i < 32 ==> is_lower_hex(#[trigger] t[i])
    &&& t[12] == '7'
    &&& (t[16] == '8' || t[16] == '9' || t[16] == 'a' || t[16] == 'b')
}

/// What `UBU_ID_PATTERN` matches: one or more lowercase letters, an underscore,
/// and a 32-digit simple UUIDv7 spelling, with nothing before or after.
pub open spec fn id_shape(s: Seq<char>) -> bool {
    &&& s.len() >= 34
    &&& forall|i: int| 0 <= i < s.len() - 33 ==> is_lower_alpha(#[trigger] s[i])
    &&& s[s.len() - 33] == '_'
    &&& uuid_v7_simple_text(s.subrange(s.len() - 32, s.len() as int))
}

pub open spec fn is_tz_head_char(c: char) -> bool {
    ('A' <= c && c <= 'Z') || ('a' <= c && c <= 'z') || c == '_'
}

pub open spec fn is_tz_tail_char(c: char) -> bool {
    is_tz_head_char(c) || ('0' <= c && c <= '9') || c == '+' || c == '-'
}

/// What `TIMEZONE_PATTERN` matches: a non-empty head of letters and underscores,
/// then one or more `/`-led non-empty segments of letters, digits, `_`, `+`, `-`.
pub open spec fn timezone_shape(s: Seq<char>) -> bool {
    exists|k: int|
        0 < k < s.len() - 1 && #[trigger] s[k] == '/'
        && (forall|i: int| 0 <= i < k ==> is_tz_head_char(#[trigger] s[i]))
        && (forall|i: int| k <= i < s.len() ==> s[i] == '/' || is_tz_tail_char(#[trigger] s[i]))
        && (forall|i: int| k <= i < s.len() - 1 && s[i] == '/' ==> #[trigger] s[i + 1] != '/')
        && s[s.len() - 1] != '/'
}

/// Trusted: compiles `pattern` with `regex::Regex::new` and reports whether
/// `is_match` finds it in `haystack`; `None` where the pattern does not compile.
/// For the two patterns of this library the contract spells out what they match
/// (anchored at both ends, as `^` and `$` anchor in the `regex` crate).
#[verifier::external_body]
pub fn regex_is_match(pattern: &str, haystack: &str) -> (r: Option<bool>)
    ensures
        r == regex_match_outcome(pattern@, haystack@),
        pattern@ == UBU_ID_PATTERN@ ==> r == Some(id_shape(haystack@)),
        pattern@ == TIMEZONE_PATTERN@ ==> r == Some(timezone_shape(haystack@)),
{
    match regex::Regex::new(pattern) {
        Ok(re) => Some(re.is_match(haystack)),
        Err(_) => None,
    }
}

/// Trusted: `uuid::Uuid::now_v7().simple().to_string()`. The value depends on the
/// clock and on randomness; what holds of every outcome is its shape: 32
/// lowercase hex digits with version 7 and the RFC 4122 variant.
#[verifier::external_body]
pub fn uuid_v7_simple() -> (r: String)
    ensures
        uuid_v7_simple_text(r@),
{
    uuid::Uuid::now_v7().simple().to_string()
}

/// What `uuid::Uuid::parse_str` followed by `get_version_num` and a test for the
/// RFC 4122 variant gives.
pub uninterp spec fn uuid_version_variant_outcome(s: Seq<char>) -> Option<(usize, bool)>;

pub open spec fn hex_value(c: char) -> int {
    if '0' <= c && c <= '9' {
        c as int - '0' as int
    } else {
        c as int - 'a' as int + 10
    }
}

/// Trusted: `uuid::Uuid::parse_str(s)`, then the version number and whether the
/// variant is RFC 4122. For 32 lowercase hex digits (the simple spelling) the
/// parse succeeds, the version is the 13th digit and the variant is RFC 4122
/// exactly when the 17th digit is 8, 9, a or b (the uuid crate reads byte 6's high
/// nibble and byte 8's two high bits).
#[verifier::external_body]
pub fn uuid_version_variant(s: &str) -> (r: Option<(usize, bool)>)
    ensures
        r == uuid_version_variant_outcome(s@),
        (s@.len() == 32 && forall|i: int| 0 <= i < 32 ==> is_lower_hex(#[trigger] s@[i])) ==> r
            == Some(
            (
                hex_value(s@[12]) as usize,
                s@[16] == '8' || s@[16] == '9' || s@[16] == 'a' || s@[16] == 'b',
            ),
        ),
{
    match uuid::Uuid::parse_str(s) {
        Ok(u) => {
            let rfc = match u.get_variant() {
                uuid::Variant::RFC4122 => true,
                _ => false,
            };
            Some((u.get_version_num(), rfc))
        },
        Err(_) => None,
    }
}


/// What `time::OffsetDateTime::parse(value, &Rfc3339)` gives, read back as the Unix
/// timestamp in nanoseconds and the offset in whole seconds.
pub uninterp spec fn rfc3339_parse_outcome(value: Seq<char>) -> Option<(i128, i32)>;

/// Trusted: parses `value` as an RFC 3339 timestamp with the `time` crate and
/// returns its instant (`unix_timestamp_nanos`) and offset (`whole_seconds`).
#[verifier::external_body]
pub fn rfc3339_parse(value: &str) -> (r: Option<(i128, i32)>)
    ensures
        r == rfc3339_parse_outcome(value@),
{
    match time::OffsetDateTime::parse(value, &time::format_description::well_known::Rfc3339) {
        Ok(t) => Some((t.unix_timestamp_nanos(), t.offset().whole_seconds())),
        Err(_) => None,
    }
}

/// What formatting the instant `nanos` seen at offset `offset` with the `time`
/// crate's RFC 3339 format gives.
pub uninterp spec fn rfc3339_format_outcome(nanos: i128, offset: i32) -> Option<Seq<char>>;

/// Trusted: rebuilds the `time::OffsetDateTime` of `nanos` at `offset` and formats
/// it as RFC 3339; `None` where the instant or offset is out of the crate's range
/// or the format refuses the value.
#[verifier::external_body]
pub fn rfc3339_format(nanos: i128, offset: i32) -> (r: Option<String>)
    ensures
        match r {
            Some(s) => rfc3339_format_outcome(nanos, offset) == Some(s@),
            None => rfc3339_format_outcome(nanos, offset) is None,
        },
{
    let utc = match time::OffsetDateTime::from_unix_timestamp_nanos(nanos) {
        Ok(t) => t,
        Err(_) => return None,
    };
    let zone = match time::UtcOffset::from_whole_seconds(offset) {
        Ok(z) => z,
        Err(_) => return None,
    };
    match utc.checked_to_offset(zone) {
        Some(t) => t.format(&time::format_description::well_known::Rfc3339).ok(),
        None => None,
    }
}

/// Trusted: `time::OffsetDateTime::now_utc().unix_timestamp_nanos()`. The value
/// depends on the clock; nothing is promised of it.
#[verifier::external_body]
pub fn now_utc_nanos() -> (r: i128) {
    time::OffsetDateTime::now_utc().unix_timestamp_nanos()
}


/// The `time` format description of a local calendar date.
pub const DATE_DESCRIPTION: &'static str = "[year]-[month]-[day]";

/// The `time` format description of a local wall-clock time.
pub const TIME_DESCRIPTION: &'static str = "[hour]:[minute]:[second]";

pub open spec fn is_digit(c: char) -> bool {
    '0' <= c && c <= '9'
}

pub open spec fn digit_value(c: char) -> int {
    c as int - '0' as int
}

pub open spec fn two_digits(s: Seq<char>, i: int) -> int {
    10 * digit_value(s[i]) + digit_value(s[i + 1])
}

pub open spec fn is_leap_year(y: int) -> bool {
    y % 4 == 0 && (y % 100 != 0 || y % 400 == 0)
}

pub open spec fn days_in_month(y: int, m: int) -> int {
    if m == 2 {
        if is_leap_year(y) { 29 } else { 28 }
    } else if m == 4 || m == 6 || m == 9 || m == 11 {
        30
    } else {
        31
    }
}

/// `YYYY-MM-DD` naming a day of the proleptic Gregorian calendar.
pub open spec fn local_date_text(s: Seq<char>) -> bool {
    &&& s.len() == 10
    &&& is_digit(s[0]) && is_digit(s[1]) && is_digit(s[2]) && is_digit(s[3])
    &&& s[4] == '-' && is_digit(s[5]) && is_digit(s[6]) && s[7] == '-' && is_digit(s[8]) && is_digit(s[9])
    &&& 1 <= two_digits(s, 5) <= 12
    &&& 1 <= two_digits(s, 8) <= days_in_month(
        1000 * digit_value(s[0]) + 100 * digit_value(s[1]) + two_digits(s, 2),
        two_digits(s, 5),
    )
}

/// `HH:MM:SS` naming a time of day (hours 00 to 23, minutes and seconds 00 to 59).
pub open spec fn local_time_text(s: Seq<char>) -> bool {
    &&& s.len() == 8
    &&& is_digit(s[0]) && is_digit(s[1]) && s[2] == ':' && is_digit(s[3]) && is_digit(s[4])
    &&& s[5] == ':' && is_digit(s[6]) && is_digit(s[7])
    &&& two_digits(s, 0) <= 23 && two_digits(s, 3) <= 59 && two_digits(s, 6) <= 59
}

/// What parsing the format description `description` with the `time` crate and
/// then `time::Date::parse(value, ..)` gives: `None` where the description does not
/// parse, else whether the value parses.
pub uninterp spec fn date_parse_outcome(description: Seq<char>, value: Seq<char>) -> Option<bool>;

/// Trusted: `time::format_description::parse_borrowed::<2>(description)`, then
/// whether `time::Date::parse(value, ..)` succeeds. For `DATE_DESCRIPTION` and a
/// value of ten bytes the `time` crate reads an optional sign and exactly four year
/// digits, then two month and two day digits, and accepts exactly the real dates.
#[verifier::external_body]
pub fn parse_date(description: &str, value: &str) -> (r: Option<bool>)
    ensures
        r == date_parse_outcome(description@, value@),
        description@ == DATE_DESCRIPTION@ && value.spec_bytes().len() == 10 ==> r == Some(
            local_date_text(value@),
        ),
{
    match time::format_description::parse_borrowed::<2>(description) {
        Ok(items) => Some(time::Date::parse(value, &items).is_ok()),
        Err(_) => None,
    }
}

/// What parsing the format description `description` with the `time` crate and
/// then `time::Time::parse(value, ..)` gives.
pub uninterp spec fn time_parse_outcome(description: Seq<char>, value: Seq<char>) -> Option<bool>;

/// Trusted: `time::format_description::parse_borrowed::<2>(description)`, then
/// whether `time::Time::parse(value, ..)` succeeds. For `TIME_DESCRIPTION` and a
/// value of eight bytes the crate reads two digits each for hour, minute and
/// second and accepts exactly the times of day.
#[verifier::external_body]
pub fn parse_time_of_day(description: &str, value: &str) -> (r: Option<bool>)
    ensures
        r == time_parse_outcome(description@, value@),
        description@ == TIME_DESCRIPTION@ && value.spec_bytes().len() == 8 ==> r == Some(
            local_time_text(value@),
        ),
{
    match time::format_description::parse_borrowed::<2>(description) {
        Ok(items) => Some(time::Time::parse(value, &items).is_ok()),
        Err(_) => None,
    }
}

/// Trusted: `String::push`, which its documentation says appends the given
/// character to the end of the string.
#[verifier::external_body]
pub fn push_char(s: &mut String, c: char)
    ensures
        final(s)@ == old(s)@.push(c),
{
    s.push(c);
}

} // verus!
