//! Points in time, as the store keeps and compares them.
//!
//! A [`Timestamp`] is a count of seconds and nanoseconds since the Unix
//! epoch in UTC. Reading the clock and converting to and from calendar text
//! is done by `chrono`; the contracts of those calls are assumed.

use vstd::prelude::*;

verus! {

/// Seconds since 1970-01-01T00:00:00Z, and nanoseconds within the second.
#[derive(Clone, Copy, Debug, PartialEq, Eq, PartialOrd, Ord, Hash, Structural)]
pub struct Timestamp {
    pub secs: i64,
    pub nanos: u32,
}

/// The RFC 3339 text of the instant, where the calendar can express it.
pub uninterp spec fn rfc3339_text(secs: i64, nanos: u32) -> Option<Seq<char>>;

/// The instant that an RFC 3339 text denotes, where it is one.
pub uninterp spec fn rfc3339_value(text: Seq<char>) -> Option<Timestamp>;

/// The day that a text denotes under a `strftime` format, counted from
/// 1 January 1970, where the text is a date of that format.
pub uninterp spec fn date_days(text: Seq<char>, format: Seq<char>) -> Option<i32>;

/// Midnight UTC of the day that a `MM-DD-YYYY` text denotes, where it is one.
pub open spec fn calendar_date_value(text: Seq<char>) -> Option<Timestamp> {
    match date_days(text, "%m-%d-%Y"@) {
        Some(days) => Some(Timestamp { secs: (days * 86400) as i64, nanos: 0 }),
        None => None,
    }
}

/// The instant that an RFC 2822 text denotes, where it is one.
pub uninterp spec fn rfc2822_value(text: Seq<char>) -> Option<Timestamp>;

/// The instant that a text denotes under a `strftime` format when read as
/// UTC, where the text is a date and time of that format.
pub uninterp spec fn datetime_value(text: Seq<char>, format: Seq<char>) -> Option<Timestamp>;

/// The instant that a `YYYY-MM-DDTHH:MM:SS` text denotes when read as UTC,
/// where it is one.
pub open spec fn plain_datetime_value(text: Seq<char>) -> Option<Timestamp> {
    datetime_value(text, "%Y-%m-%dT%H:%M:%S"@)
}

/// The instant shown in UTC after a `strftime` pattern, where the calendar
/// can express it.
pub uninterp spec fn time_text(secs: i64, nanos: u32, pattern: Seq<char>) -> Option<Seq<char>>;

/// How an instant is shown.
#[derive(Clone, Copy, Debug, PartialEq, Eq, Structural)]
pub enum TimeStyle {
    /// `2023-01-15 10:30:00 UTC`
    Full,
    /// `2023-01-15 10:30`
    Minutes,
    /// `2023-01-15`
    Day,
}

/// The `strftime` pattern of a style.
pub open spec fn pattern_of(style: TimeStyle) -> Seq<char> {
    match style {
        TimeStyle::Full => "%Y-%m-%d %H:%M:%S UTC"@,
        TimeStyle::Minutes => "%Y-%m-%d %H:%M"@,
        TimeStyle::Day => "%Y-%m-%d"@,
    }
}

/// The pattern is one of those that the styles use.
pub open spec fn known_pattern(pattern: Seq<char>) -> bool {
    pattern == "%Y-%m-%d %H:%M:%S UTC"@ || pattern == "%Y-%m-%d %H:%M"@ || pattern == "%Y-%m-%d"@
}

impl Timestamp {
    /// `self` is strictly earlier than `other`.
    pub open spec fn before(self, other: Timestamp) -> bool {
        self.secs < other.secs || (self.secs == other.secs && self.nanos < other.nanos)
    }

    /// `self` is no later than `other`.
    pub open spec fn not_after(self, other: Timestamp) -> bool {
        !other.before(self)
    }

    /// The instant lies in the years 0000 to 9999, and its nanoseconds are
    /// a part of one second, or of a leap second that follows the last
    /// second of a minute: the range in which writing it as RFC 3339 text
    /// and reading the text back is the identity.
    pub open spec fn in_common_era(self) -> bool {
        -62167219200 <= self.secs <= 253402300799 && (self.nanos < 1_000_000_000 || (self.nanos
            < 2_000_000_000 && self.secs as int % 60 == 59))
    }

    /// The instant can be written as RFC 3339 text.
    pub open spec fn writable(self) -> bool {
        rfc3339_text(self.secs, self.nanos) is Some
    }

    /// The RFC 3339 text of a writable instant.
    pub open spec fn written(self) -> Seq<char> {
        rfc3339_text(self.secs, self.nanos)->Some_0
    }

    /// Reading the text of this instant gives the instant back.
    pub open spec fn reads_back(self) -> bool {
        self.writable() && rfc3339_value(self.written()) == Some(self)
    }

    pub fn is_before(&self, other: &Timestamp) -> (r: bool)
        ensures
            r == self.before(*other),
    {
        self.secs < other.secs || (self.secs == other.secs && self.nanos < other.nanos)
    }

    pub fn is_not_after(&self, other: &Timestamp) -> (r: bool)
        ensures
            r == self.not_after(*other),
    {
        !other.is_before(self)
    }

    /// The current time, as the system clock gives it: seconds, and the
    /// nanoseconds of a second that is no leap second. It is an instant of
    /// the calendar, so it can be written as text.
    pub fn now() -> (r: Timestamp)
        ensures
            r.nanos < 1_000_000_000,
            r.writable(),
    {
        clock_now()
    }

    /// The instant as RFC 3339 text, or `None` where the calendar cannot
    /// express it.
    pub fn to_rfc3339(&self) -> (r: Option<String>)
        ensures
            r is Some <==> self.writable(),
            r matches Some(s) ==> s@ == self.written(),
            self.in_common_era() ==> self.reads_back(),
    {
        format_rfc3339(self.secs, self.nanos)
    }

    /// The instant that an RFC 3339 text denotes.
    pub fn parse_rfc3339(s: &str) -> (r: Option<Timestamp>)
        ensures
            r == rfc3339_value(s@),
    {
        parse_rfc3339_text(s)
    }

    /// The instant as it is shown in the given style; nothing where the
    /// calendar cannot express it.
    pub open spec fn shown(self, style: TimeStyle) -> Seq<char> {
        match time_text(self.secs, self.nanos, pattern_of(style)) {
            Some(t) => t,
            None => Seq::empty(),
        }
    }

    /// The instant in UTC, in the given style; empty where the calendar
    /// cannot express it.
    pub fn display(&self, style: TimeStyle) -> (r: String)
        ensures
            r@ == self.shown(style),
    {
        let pattern = match style {
            TimeStyle::Full => "%Y-%m-%d %H:%M:%S UTC",
            TimeStyle::Minutes => "%Y-%m-%d %H:%M",
            TimeStyle::Day => "%Y-%m-%d",
        };
        match format_time(self.secs, self.nanos, pattern) {
            Some(t) => t,
            None => String::new(),
        }
    }

    /// The instant that an RFC 2822 text denotes.
    pub fn parse_rfc2822(s: &str) -> (r: Option<Timestamp>)
        ensures
            r == rfc2822_value(s@),
    {
        parse_rfc2822_text(s)
    }

    /// The instant that a `YYYY-MM-DDTHH:MM:SS` text denotes, read as UTC.
    pub fn parse_plain_datetime(s: &str) -> (r: Option<Timestamp>)
        ensures
            r == plain_datetime_value(s@),
    {
        parse_datetime_text(s, "%Y-%m-%dT%H:%M:%S")
    }

    /// Midnight UTC of the day that a `MM-DD-YYYY` text denotes.
    pub fn parse_calendar_date(s: &str) -> (r: Option<Timestamp>)
        ensures
            r == calendar_date_value(s@),
    {
        match parse_date_text(s, "%m-%d-%Y") {
            Some(days) => {
                let day: i64 = days as i64;
                Some(Timestamp { secs: day * 86400, nanos: 0 })
            },
            None => None,
        }
    }
}

/// `chrono::Utc::now`, as seconds and nanoseconds. The seconds are
/// whatever the system clock says; the nanoseconds are a part of one
/// second, since the clock reports no leap second. What the clock says is
/// made an instant of the calendar by `DateTime::from_timestamp` before it
/// is returned, so it is one that can be written as text.
#[verifier::external_body]
fn clock_now() -> (r: Timestamp)
    ensures
        r.nanos < 1_000_000_000,
        rfc3339_text(r.secs, r.nanos) is Some,
{
    let now = chrono::Utc::now();
    Timestamp { secs: now.timestamp(), nanos: now.timestamp_subsec_nanos() }
}

/// `chrono::DateTime::to_rfc3339` on the instant built by
/// `DateTime::from_timestamp`: `None` where that instant is out of the
/// calendar's range. For an instant of the years 0000 to 9999, a leap
/// second after the last second of a minute included, the text exists, and
/// `parse_from_rfc3339` reads it back as the same instant.
#[verifier::external_body]
fn format_rfc3339(secs: i64, nanos: u32) -> (r: Option<String>)
    ensures
        r is Some <==> rfc3339_text(secs, nanos) is Some,
        r matches Some(s) ==> rfc3339_text(secs, nanos) == Some(s@),
        (Timestamp { secs, nanos }).in_common_era() ==> r is Some && rfc3339_value(r->Some_0@)
            == Some(Timestamp { secs, nanos }),
{
    chrono::DateTime::from_timestamp(secs, nanos).map(|d| d.to_rfc3339())
}

/// `chrono::DateTime::parse_from_rfc3339`, the result taken as seconds and
/// nanoseconds in UTC.
#[verifier::external_body]
fn parse_rfc3339_text(s: &str) -> (r: Option<Timestamp>)
    ensures
        r == rfc3339_value(s@),
{
    chrono::DateTime::parse_from_rfc3339(s).ok().map(
        |d| Timestamp { secs: d.timestamp(), nanos: d.timestamp_subsec_nanos() },
    )
}

/// `chrono::NaiveDate::parse_from_str` with the given format, the day as
/// `NaiveDate::to_epoch_days` counts it from 1 January 1970.
#[verifier::external_body]
fn parse_date_text(s: &str, format: &str) -> (r: Option<i32>)
    ensures
        r == date_days(s@, format@),
{
    chrono::NaiveDate::parse_from_str(s, format).ok().map(|d| d.to_epoch_days())
}

/// `chrono::DateTime::format` with one of the known patterns, on the
/// instant built by `DateTime::from_timestamp`: `None` where that instant is
/// out of the calendar's range.
#[verifier::external_body]
fn format_time(secs: i64, nanos: u32, pattern: &str) -> (r: Option<String>)
    requires
        known_pattern(pattern@),
    ensures
        r is Some <==> time_text(secs, nanos, pattern@) is Some,
        r matches Some(s) ==> time_text(secs, nanos, pattern@) == Some(s@),
{
    chrono::DateTime::from_timestamp(secs, nanos).map(|d| d.format(pattern).to_string())
}

/// `chrono::DateTime::parse_from_rfc2822`, the result taken as seconds and
/// nanoseconds in UTC.
#[verifier::external_body]
fn parse_rfc2822_text(s: &str) -> (r: Option<Timestamp>)
    ensures
        r == rfc2822_value(s@),
{
    chrono::DateTime::parse_from_rfc2822(s).ok().map(
        |d| Timestamp { secs: d.timestamp(), nanos: d.timestamp_subsec_nanos() },
    )
}

/// `chrono::NaiveDateTime::parse_from_str` with the given format, the
/// result taken as UTC.
#[verifier::external_body]
fn parse_datetime_text(s: &str, format: &str) -> (r: Option<Timestamp>)
    ensures
        r == datetime_value(s@, format@),
{
    chrono::NaiveDateTime::parse_from_str(s, format).ok().map(
        |t| Timestamp { secs: t.and_utc().timestamp(), nanos: t.and_utc().timestamp_subsec_nanos() },
    )
}

} // verus!
