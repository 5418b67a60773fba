//! Points in time and calendar days, held as plain numbers.
//!
//! A publication date is the pair (seconds since the Unix epoch, nanoseconds)
//! that chrono's `DateTime<Utc>` stands for; a calendar day is chrono's
//! count of days from the common era. Formatting goes through chrono.
use vstd::prelude::*;

verus! {

/// A UTC instant: whole seconds since 1970-01-01T00:00:00Z and the
/// nanoseconds into that second (above a billion only inside a leap second).
#[derive(Clone, Copy, Debug, PartialEq, Eq, Structural)]
pub struct UtcTimestamp {
    pub secs: i64,
    pub nanos: u32,
}

/// The first second chrono can represent: -262143-01-01T00:00:00Z.
pub const MIN_SECS: i64 = -8_334_601_228_800;

/// The last second chrono can represent: +262142-12-31T23:59:59Z.
pub const MAX_SECS: i64 = 8_210_266_876_799;

/// chrono's first day, -262143-01-01, counted from the common era.
pub const MIN_DAYS: i32 = -95_746_129;

/// chrono's last day, +262142-12-31, counted from the common era.
pub const MAX_DAYS: i32 = 95_745_399;

/// The instants that chrono's `DateTime::from_timestamp` accepts: a second
/// between chrono's first and last day, and a leap-second fraction only on
/// the last second of a minute.
pub open spec fn valid_timestamp(secs: int, nanos: int) -> bool {
    &&& MIN_SECS <= secs <= MAX_SECS
    &&& (nanos < 1_000_000_000 || (nanos < 2_000_000_000 && secs % 60 == 59))
}

impl UtcTimestamp {
    /// The instant is one that chrono can represent.
    pub open spec fn valid(self) -> bool {
        valid_timestamp(self.secs as int, self.nanos as int)
    }

    /// Chronological order: earlier seconds first, then fewer nanoseconds.
    pub open spec fn before(self, other: Self) -> bool {
        self.secs < other.secs || (self.secs == other.secs && self.nanos < other.nanos)
    }

    /// Builds an instant from a timestamp, or `None` when chrono cannot
    /// represent it.
    pub fn new(secs: i64, nanos: u32) -> (res: Option<Self>)
        ensures
            res is Some <==> valid_timestamp(secs as int, nanos as int),
            res matches Some(t) ==> t.secs == secs && t.nanos == nanos,
    {
        if secs < MIN_SECS || secs > MAX_SECS {
            return None;
        }
        let r = secs % 60;
        let minute_second: i64 = if r < 0 { r + 60 } else { r };
        assert(minute_second == secs as int % 60);
        if nanos < 1_000_000_000 || (nanos < 2_000_000_000 && minute_second == 59) {
            Some(UtcTimestamp { secs, nanos })
        } else {
            None
        }
    }

    /// Whether the instant is one that chrono can represent.
    pub fn valid_exec(&self) -> (res: bool)
        ensures
            res == self.valid(),
    {
        match UtcTimestamp::new(self.secs, self.nanos) {
            Some(_) => true,
            None => false,
        }
    }

    /// Whether `self` is strictly earlier than `other`.
    pub fn is_before(&self, other: &Self) -> (res: bool)
        ensures
            res == self.before(*other),
    {
        self.secs < other.secs || (self.secs == other.secs && self.nanos < other.nanos)
    }
}

/// The text that chrono's `DateTime<Utc>::to_rfc3339` gives for an instant.
pub uninterp spec fn rfc3339_text(secs: i64, nanos: u32) -> Seq<char>;

/// The text that chrono's `DateTime<Utc>::format(fmt)` displays for an instant.
pub uninterp spec fn formatted_text(secs: i64, nanos: u32, fmt: Seq<char>) -> Seq<char>;

/// The format string for a date alone: `2024-06-25`.
pub open spec fn date_only_format() -> Seq<char> {
    seq!['%', 'F']
}

/// The format string for a date with its time and offset:
/// `2024-06-25 14:11:08+00:00`.
pub open spec fn date_time_format() -> Seq<char> {
    seq!['%', 'F', ' ', '%', 'H', ':', '%', 'M', ':', '%', 'S', '%', ':', 'z']
}

/// The RFC 3339 form of an instant, from `DateTime::from_timestamp` and
/// `DateTime::to_rfc3339` of chrono. Trusted: the result is named after the
/// two numbers, of which alone it depends; a valid instant is one that
/// `from_timestamp` accepts, so the `None` arm is never taken.
#[verifier::external_body]
pub fn to_rfc3339(t: &UtcTimestamp) -> (res: String)
    requires
        t.valid(),
    ensures
        res@ == rfc3339_text(t.secs, t.nanos),
{
    match chrono::DateTime::from_timestamp(t.secs, t.nanos) {
        Some(dt) => dt.to_rfc3339(),
        None => String::new(),
    }
}

/// An instant formatted by chrono's `DateTime<Utc>::format` with one of the
/// two format strings the site uses. Trusted: the result is named after the
/// instant and the format string; both format strings are valid chrono
/// formats, so displaying them does not fail.
#[verifier::external_body]
pub fn format_timestamp(t: &UtcTimestamp, fmt: &str) -> (res: String)
    requires
        t.valid(),
        fmt@ == date_only_format() || fmt@ == date_time_format(),
    ensures
        res@ == formatted_text(t.secs, t.nanos, fmt@),
{
    match chrono::DateTime::from_timestamp(t.secs, t.nanos) {
        Some(dt) => dt.format(fmt).to_string(),
        None => String::new(),
    }
}

/// A calendar day, as chrono's `NaiveDate::num_days_from_ce` counts it
/// (0001-01-01 is day 1).
#[derive(Clone, Copy, Debug, PartialEq, Eq, Structural)]
pub struct CalendarDay {
    pub days_from_ce: i32,
}

impl CalendarDay {
    /// The day is one that chrono can represent.
    pub open spec fn valid(self) -> bool {
        MIN_DAYS <= self.days_from_ce <= MAX_DAYS
    }

    /// Builds a day, or `None` when it lies outside the accepted years.
    pub fn new(days_from_ce: i32) -> (res: Option<Self>)
        ensures
            res is Some <==> MIN_DAYS <= days_from_ce <= MAX_DAYS,
            res matches Some(d) ==> d.days_from_ce == days_from_ce,
    {
        if days_from_ce < MIN_DAYS || days_from_ce > MAX_DAYS {
            None
        } else {
            Some(CalendarDay { days_from_ce })
        }
    }

    /// Whole days from `self` to `later`, as `(later - self).num_days()`.
    pub fn days_until(&self, later: &CalendarDay) -> (res: i64)
        ensures
            res == later.days_from_ce - self.days_from_ce,
    {
        later.days_from_ce as i64 - self.days_from_ce as i64
    }
}

/// The text that `Display` of chrono's `NaiveDate` gives for a day.
pub uninterp spec fn day_text(days_from_ce: i32) -> Seq<char>;

/// A day displayed by chrono's `NaiveDate` (`%Y-%m-%d`), through
/// `NaiveDate::from_num_days_from_ce_opt`. Trusted: the result is named after
/// the day count; a valid day is one that chrono accepts.
#[verifier::external_body]
pub fn format_day(d: &CalendarDay) -> (res: String)
    requires
        d.valid(),
    ensures
        res@ == day_text(d.days_from_ce),
{
    match chrono::NaiveDate::from_num_days_from_ce_opt(d.days_from_ce) {
        Some(day) => day.to_string(),
        None => String::new(),
    }
}

} // verus!
