//! Timestamps in milliseconds since the Unix epoch, and UTC date-times.
use crate::resources::{append_decimal, decimal};
use vstd::prelude::*;

verus! {

/// Chrono represents the UTC instant `ms` milliseconds after the Unix epoch.
pub uninterp spec fn millis_fits(ms: int) -> bool;

/// What chrono's `%Y%m%d%H%M%S%3f` formatting gives for the instant `ms`.
pub uninterp spec fn compact_text_of(ms: int) -> Seq<char>;

/// What chrono's `Display` gives for the UTC instant `ms`.
pub uninterp spec fn datetime_text_of(ms: int) -> Seq<char>;

/// Relies on chrono's `From<SystemTime>` for `DateTime<Utc>`, which gives a negative time
/// for a clock set before the Unix epoch, and on `DateTime::timestamp_millis`, which
/// round-trips with `DateTime::from_timestamp_millis`, so the result is representable.
#[verifier::external_body]
fn utc_now_millis() -> (r: i64)
    ensures
        millis_fits(r as int),
{
    chrono::DateTime::<chrono::Utc>::from(std::time::SystemTime::now()).timestamp_millis()
}

/// Relies on `chrono::DateTime::from_timestamp_millis`: whether it accepts `ms`.
#[verifier::external_body]
fn chrono_accepts_millis(ms: i64) -> (r: bool)
    ensures
        r == millis_fits(ms as int),
{
    chrono::DateTime::from_timestamp_millis(ms).is_some()
}

/// Relies on `chrono::DateTime::format` with `%Y%m%d%H%M%S%3f`.
#[verifier::external_body]
fn chrono_compact_text(ms: i64) -> (r: String)
    requires
        millis_fits(ms as int),
    ensures
        r@ == compact_text_of(ms as int),
{
    chrono::DateTime::from_timestamp_millis(ms).unwrap().format("%Y%m%d%H%M%S%3f").to_string()
}

/// Relies on `Display` for `chrono::DateTime<Utc>`.
#[verifier::external_body]
fn chrono_datetime_text(ms: i64) -> (r: String)
    requires
        millis_fits(ms as int),
    ensures
        r@ == datetime_text_of(ms as int),
{
    chrono::DateTime::from_timestamp_millis(ms).unwrap().to_string()
}

/// The decimal notation of a signed integer.
pub open spec fn signed_decimal(v: int) -> Seq<char> {
    if v < 0 {
        "-"@ + decimal((-v) as nat)
    } else {
        decimal(v as nat)
    }
}

/// Milliseconds since the Unix epoch, UTC.
#[derive(Debug, Clone, Copy, PartialEq, Eq, PartialOrd, Ord, Hash, Structural)]
pub struct Timestamp(i64);

impl View for Timestamp {
    type V = int;

    closed spec fn view(&self) -> int {
        self.0 as int
    }
}

impl Timestamp {
    /// The current system time, to the millisecond.
    pub fn now() -> (r: Self)
        ensures
            millis_fits(r@),
    {
        Timestamp(utc_now_millis())
    }

    /// The largest timestamp.
    pub fn max() -> (r: Self)
        ensures
            r@ == i64::MAX,
    {
        Timestamp(i64::MAX)
    }

    /// The smallest timestamp.
    pub fn min() -> (r: Self)
        ensures
            r@ == i64::MIN,
    {
        Timestamp(i64::MIN)
    }

    /// The timestamp `ms` milliseconds after the epoch.
    pub fn from_millis(ms: i64) -> (r: Self)
        ensures
            r@ == ms,
    {
        Timestamp(ms)
    }

    /// The number of milliseconds since the epoch.
    pub fn as_millis(&self) -> (r: i64)
        ensures
            r == self@,
    {
        self.0
    }

    /// The decimal number of milliseconds.
    pub fn to_string(&self) -> (r: String)
        ensures
            r@ == signed_decimal(self@),
    {
        let mut out = String::new();
        if self.0 < 0 {
            out.append("-");
            append_decimal(&mut out, (-(self.0 as i128)) as u64);
        } else {
            append_decimal(&mut out, self.0 as u64);
        }
        out
    }
}

impl Default for Timestamp {
    fn default() -> (r: Self)
        ensures
            r@ == 0,
    {
        Timestamp(0)
    }
}

impl From<i64> for Timestamp {
    fn from(value: i64) -> (r: Timestamp)
        ensures
            r@ == value,
    {
        Timestamp(value)
    }
}

impl vstd::std_specs::convert::FromSpecImpl<i64> for Timestamp {
    open spec fn obeys_from_spec() -> bool {
        true
    }

    closed spec fn from_spec(v: i64) -> Timestamp {
        Timestamp(v)
    }
}

impl From<Timestamp> for i64 {
    fn from(ts: Timestamp) -> (r: i64)
        ensures
            r == ts@,
    {
        ts.0
    }
}

impl vstd::std_specs::convert::FromSpecImpl<Timestamp> for i64 {
    open spec fn obeys_from_spec() -> bool {
        true
    }

    closed spec fn from_spec(v: Timestamp) -> i64 {
        v.0
    }
}

/// The closed interval of time `[start, end]`.
#[derive(Debug, Clone)]
pub struct TimestampRange {
    pub start: Timestamp,
    pub end: Timestamp,
}

impl TimestampRange {
    /// The interval from `start` to `end`, both included.
    pub fn new(start: Timestamp, end: Timestamp) -> (r: Self)
        ensures
            r.start == start,
            r.end == end,
    {
        Self { start, end }
    }

    /// The display form `<start> -> <end>`.
    pub fn to_string(&self) -> (r: String)
        ensures
            r@ == signed_decimal(self.start@) + " -> "@ + signed_decimal(self.end@),
    {
        let mut out = self.start.to_string();
        out.append(" -> ");
        let end = self.end.to_string();
        out.append(end.as_str());
        out
    }
}

/// A UTC instant that chrono can represent, held as milliseconds since the epoch.
pub struct DateTime {
    millis: i64,
}

impl View for DateTime {
    type V = int;

    closed spec fn view(&self) -> int {
        self.millis as int
    }
}

impl DateTime {
    #[verifier::type_invariant]
    spec fn inv(&self) -> bool {
        millis_fits(self.millis as int)
    }

    /// The current UTC time.
    pub fn now() -> (r: Self)
        ensures
            millis_fits(r@),
    {
        DateTime { millis: utc_now_millis() }
    }

    /// The instant of `ts`, when chrono can represent it.
    pub fn from_timestamp(ts: Timestamp) -> (r: Option<Self>)
        ensures
            r.is_some() == millis_fits(ts@),
            r matches Some(d) ==> d@ == ts@,
    {
        if chrono_accepts_millis(ts.as_millis()) {
            Some(Self::from(ts))
        } else {
            None
        }
    }

    /// The instant of `ts`, which chrono can represent.
    pub fn from(ts: Timestamp) -> (r: Self)
        requires
            millis_fits(ts@),
        ensures
            r@ == ts@,
    {
        DateTime { millis: ts.as_millis() }
    }

    /// The instant as a timestamp.
    pub fn timestamp(&self) -> (r: Timestamp)
        ensures
            r@ == self@,
    {
        Timestamp::from_millis(self.millis)
    }

    /// The instant as `YYYYMMDDhhmmssfff`.
    pub fn fmt_to_ms(&self) -> (r: String)
        ensures
            r@ == compact_text_of(self@),
    {
        proof {
            use_type_invariant(self);
        }
        chrono_compact_text(self.millis)
    }

    /// The instant in chrono's display form.
    pub fn to_string(&self) -> (r: String)
        ensures
            r@ == datetime_text_of(self@),
    {
        proof {
            use_type_invariant(self);
        }
        chrono_datetime_text(self.millis)
    }
}

} // verus!
