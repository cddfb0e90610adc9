//! RFC 3339 timestamps with a required offset, compared by the instant they name.
use vstd::prelude::*;

use crate::errors::UbuError;
use crate::foreign::{now_utc_nanos, rfc3339_format, rfc3339_format_outcome, rfc3339_parse, rfc3339_parse_outcome};

verus! {

/// An instant (Unix nanoseconds) together with the offset it was written in.
/// Equality and order go by the instant alone, as they do for `time::OffsetDateTime`.
#[derive(Debug, Clone, Copy)]
pub struct UbuTimestamp {
    unix_nanos: i128,
    offset_seconds: i32,
}

impl View for UbuTimestamp {
    type V = (i128, i32);

    closed spec fn view(&self) -> (i128, i32) {
        (self.unix_nanos, self.offset_seconds)
    }
}

impl UbuTimestamp {
    /// Accept an RFC 3339 timestamp with its timezone offset.
    pub fn parse(value: &str) -> (r: Result<UbuTimestamp, UbuError>)
        ensures
            match rfc3339_parse_outcome(value@) {
                Some(p) => r matches Ok(t) && t@ == p,
                None => r matches Err(UbuError::InvalidTimestamp { value: v }) && v@ == value@,
            },
    {
        match rfc3339_parse(value) {
            Some((n, o)) => Ok(UbuTimestamp { unix_nanos: n, offset_seconds: o }),
            None => Err(UbuError::InvalidTimestamp { value: value.to_owned() }),
        }
    }

    /// The current instant, in UTC.
    pub fn now_utc() -> (r: UbuTimestamp)
        ensures
            r@.1 == 0,
    {
        UbuTimestamp { unix_nanos: now_utc_nanos(), offset_seconds: 0 }
    }

    /// The instant, in nanoseconds since the Unix epoch.
    pub fn unix_nanos(&self) -> (r: i128)
        ensures
            r == self@.0,
    {
        self.unix_nanos
    }

    /// The offset the timestamp was written in, in seconds east of UTC.
    pub fn offset_seconds(&self) -> (r: i32)
        ensures
            r == self@.1,
    {
        self.offset_seconds
    }

    /// Whether this instant is strictly earlier than `other`.
    pub fn is_before(&self, other: &UbuTimestamp) -> (r: bool)
        ensures
            r == (self@.0 < other@.0),
    {
        self.unix_nanos < other.unix_nanos
    }

    /// The RFC 3339 spelling in the stored offset; `None` where the `time`
    /// crate's formatter refuses the value.
    pub fn to_rfc3339(&self) -> (r: Option<String>)
        ensures
            match r {
                Some(s) => rfc3339_format_outcome(self@.0, self@.1) == Some(s@),
                None => rfc3339_format_outcome(self@.0, self@.1) is None,
            },
    {
        rfc3339_format(self.unix_nanos, self.offset_seconds)
    }
}

impl PartialEq for UbuTimestamp {
    fn eq(&self, other: &Self) -> (r: bool) {
        self.unix_nanos == other.unix_nanos
    }
}

impl vstd::std_specs::cmp::PartialEqSpecImpl for UbuTimestamp {
    open spec fn obeys_eq_spec() -> bool {
        true
    }

    open spec fn eq_spec(&self, other: &Self) -> bool {
        self@.0 == other@.0
    }
}

impl Eq for UbuTimestamp {}

impl PartialOrd for UbuTimestamp {
    fn partial_cmp(&self, other: &Self) -> (r: Option<std::cmp::Ordering>) {
        if self.unix_nanos < other.unix_nanos {
            Some(std::cmp::Ordering::Less)
        } else if self.unix_nanos == other.unix_nanos {
            Some(std::cmp::Ordering::Equal)
        } else {
            Some(std::cmp::Ordering::Greater)
        }
    }
}

impl vstd::std_specs::cmp::PartialOrdSpecImpl for UbuTimestamp {
    open spec fn obeys_partial_cmp_spec() -> bool {
        true
    }

    open spec fn partial_cmp_spec(&self, other: &Self) -> Option<std::cmp::Ordering> {
        if self@.0 < other@.0 {
            Some(std::cmp::Ordering::Less)
        } else if self@.0 == other@.0 {
            Some(std::cmp::Ordering::Equal)
        } else {
            Some(std::cmp::Ordering::Greater)
        }
    }
}

} // verus!
