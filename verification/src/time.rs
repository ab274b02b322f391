//! Points in time, as whole seconds since the Unix epoch and the nanoseconds
//! past them.

use vstd::prelude::*;

use chrono::DurationRound;

use crate::text::{decimal, decimal_text, maybe};

verus! {

/// A point in time.
#[derive(Debug, Clone, Copy, PartialEq, Eq, Hash, Structural)]
pub struct Timestamp {
    /// Seconds since 1970-01-01T00:00:00Z, negative before it.
    pub seconds: i64,
    /// Nanoseconds past that second; from a thousand million up, a leap second.
    pub nanos: u32,
}

pub const NANOS_PER_SECOND: u32 = 1_000_000_000;

pub const SECONDS_PER_HOUR: i64 = 3_600;

/// How the day of something older than thirty days is printed.
pub const DAY_PATTERN: &'static str = "%d %b %Y";

/// The first second of the calendar, in the year -262143.
pub const FIRST_SECOND: i64 = -8_334_601_228_800;

/// The last second of the calendar, in the year 262142.
pub const LAST_SECOND: i64 = 8_210_266_876_799;

impl Timestamp {
    /// Nanoseconds since the epoch.
    pub open spec fn stamp(self) -> int {
        self.seconds * 1_000_000_000 + self.nanos
    }

    /// Whether this is a point of the calendar outside any leap second.
    pub open spec fn is_ordinary(self) -> bool {
        &&& FIRST_SECOND <= self.seconds <= LAST_SECOND
        &&& self.nanos < NANOS_PER_SECOND
    }

    /// Whether this point comes before another.
    pub open spec fn precedes(self, other: Timestamp) -> bool {
        ||| self.seconds < other.seconds
        ||| self.seconds == other.seconds && self.nanos < other.nanos
    }

    /// Whether this point comes before another.
    pub fn is_before(&self, other: &Timestamp) -> (yes: bool)
        ensures
            yes == self.precedes(*other),
            yes <==> self.seconds < other.seconds || (self.seconds == other.seconds && self.nanos
                < other.nanos),
    {
        self.seconds < other.seconds || (self.seconds == other.seconds && self.nanos < other.nanos)
    }
}

/// The start of the hour, as chrono's `duration_trunc` by one hour finds it.
pub uninterp spec fn hour_start(at: Timestamp) -> Option<Timestamp>;

/// The instant an RFC 3339 text stands for, as chrono reads it.
pub uninterp spec fn rfc3339_instant(text: Seq<char>) -> Option<Timestamp>;

/// The day of an RFC 3339 text, as chrono prints it with a pattern.
pub uninterp spec fn rfc3339_day(text: Seq<char>, pattern: Seq<char>) -> Option<Seq<char>>;

/// The whole seconds from one instant to another, as chrono counts them.
pub uninterp spec fn seconds_between(then: Timestamp, now: Timestamp) -> Option<i64>;

/// The start of the hour of an ordinary instant, which exists exactly when the
/// nanoseconds since the epoch fit in 64 bits.
pub open spec fn is_start_of_hour(start: Option<Timestamp>, at: Timestamp) -> bool {
    if i64::MIN <= at.stamp() <= i64::MAX {
        start == Some(
            Timestamp { seconds: (at.seconds - at.seconds % SECONDS_PER_HOUR) as i64, nanos: 0 },
        )
    } else {
        start is None
    }
}

/// Division that drops the fraction, whatever the sign.
pub open spec fn quotient(n: int, d: int) -> int {
    if n >= 0 {
        n / d
    } else {
        -((-n) / d)
    }
}

/// Calls chrono's `DateTime::duration_trunc` with one hour.
///
/// The result depends on the instant alone, and for an ordinary instant it is
/// the start of its hour. What a leap second becomes is left unsaid.
#[verifier::external_body]
fn trunc_to_hour(at: Timestamp) -> (start: Option<Timestamp>)
    ensures
        start == hour_start(at),
        at.is_ordinary() ==> is_start_of_hour(start, at),
{
    chrono::DateTime::<chrono::Utc>::from_timestamp(at.seconds, at.nanos)
        .and_then(|at| at.duration_trunc(chrono::TimeDelta::hours(1)).ok())
        .map(|at| Timestamp { seconds: at.timestamp(), nanos: at.timestamp_subsec_nanos() })
}

/// Calls chrono's `DateTime::parse_from_rfc3339` and takes the instant, in UTC.
#[verifier::external_body]
fn parse_rfc3339(text: &str) -> (at: Option<Timestamp>)
    ensures
        at == rfc3339_instant(text@),
{
    chrono::DateTime::parse_from_rfc3339(text)
        .ok()
        .map(|at| Timestamp { seconds: at.timestamp(), nanos: at.timestamp_subsec_nanos() })
}

/// Calls chrono's `DateTime::format` on a parsed text, which gives a day for
/// exactly the texts that parse. The result depends on the text and the pattern
/// alone. Printing with a pattern that chrono does not know panics, so only the
/// one pattern is let in.
#[verifier::external_body]
fn format_day(text: &str, pattern: &str) -> (day: Option<String>)
    requires
        pattern@ == DAY_PATTERN@,
    ensures
        maybe(day) == rfc3339_day(text@, pattern@),
        day is Some <==> rfc3339_instant(text@) is Some,
{
    chrono::DateTime::parse_from_rfc3339(text).ok().map(|at| at.format(pattern).to_string())
}

/// Calls chrono's subtraction of instants and `TimeDelta::num_seconds`.
///
/// The result depends on the two instants alone. Between ordinary instants it
/// is the difference without its fraction. How leap seconds count is left
/// unsaid.
#[verifier::external_body]
fn count_seconds(then: Timestamp, now: Timestamp) -> (seconds: Option<i64>)
    ensures
        seconds == seconds_between(then, now),
        then.is_ordinary() && now.is_ordinary() ==> seconds is Some && seconds->0 == quotient(
            now.stamp() - then.stamp(),
            1_000_000_000,
        ),
{
    let now = chrono::DateTime::<chrono::Utc>::from_timestamp(now.seconds, now.nanos)?;
    let then = chrono::DateTime::<chrono::Utc>::from_timestamp(then.seconds, then.nanos)?;
    Some((now - then).num_seconds())
}

/// Calls chrono's `Utc::now`; nothing is promised of the clock.
#[verifier::external_body]
fn read_clock() -> (now: Timestamp) {
    let now = chrono::Utc::now();
    Timestamp { seconds: now.timestamp(), nanos: now.timestamp_subsec_nanos() }
}

/// The start of the hour a point in time falls in.
///
/// `None` for a point that is not in the calendar or too far away to count in
/// nanoseconds.
pub fn hour_of(at: Timestamp) -> (start: Option<Timestamp>)
    ensures
        start == hour_start(at),
        at.is_ordinary() ==> is_start_of_hour(start, at),
{
    trunc_to_hour(at)
}

// -------------------------------------------------------------- relative time

/// How long ago something was, in words: by the seconds since, or the day for
/// anything older than thirty days.
pub open spec fn ago(seconds: int, day: Seq<char>) -> Seq<char> {
    if seconds < 60 {
        "just now"@
    } else if seconds < 3_600 {
        decimal((seconds / 60) as nat) + "m ago"@
    } else if seconds < 86_400 {
        decimal((seconds / 3_600) as nat) + "h ago"@
    } else if seconds < 2_592_000 {
        decimal((seconds / 86_400) as nat) + "d ago"@
    } else {
        day
    }
}

/// How long ago something was, in words.
pub fn ago_text(seconds: i64, day: String) -> (text: String)
    ensures
        text@ == ago(seconds as int, day@),
        seconds < 60 ==> text@ == "just now"@,
        60 <= seconds < 3_600 ==> text@ == decimal((seconds / 60) as nat) + "m ago"@,
        3_600 <= seconds < 86_400 ==> text@ == decimal((seconds / 3_600) as nat) + "h ago"@,
        86_400 <= seconds < 2_592_000 ==> text@ == decimal((seconds / 86_400) as nat) + "d ago"@,
        seconds >= 2_592_000 ==> text@ == day@,
{
    if seconds < 60 {
        "just now".to_owned()
    } else if seconds < 3_600 {
        decimal_text((seconds / 60) as u64).concat("m ago")
    } else if seconds < 86_400 {
        decimal_text((seconds / 3_600) as u64).concat("h ago")
    } else if seconds < 2_592_000 {
        decimal_text((seconds / 86_400) as u64).concat("d ago")
    } else {
        day
    }
}

/// What a timestamp reads as at a given moment: relative where it is a
/// timestamp, and itself where it is not.
pub open spec fn relative_at(timestamp: Seq<char>, now: Timestamp) -> Seq<char> {
    match (rfc3339_instant(timestamp), rfc3339_day(timestamp, DAY_PATTERN@)) {
        (Some(then), Some(day)) => match seconds_between(then, now) {
            Some(seconds) => ago(seconds as int, day),
            None => timestamp,
        },
        _ => timestamp,
    }
}

/// Whether a text is what a timestamp reads as at a given moment, as far as that
/// follows without leap seconds: a text that is no timestamp is left alone, a
/// timestamp has a day, and between ordinary instants the whole seconds decide.
pub open spec fn tells(text: Seq<char>, timestamp: Seq<char>, now: Timestamp) -> bool {
    match rfc3339_instant(timestamp) {
        Some(then) => {
            &&& rfc3339_day(timestamp, DAY_PATTERN@) is Some
            &&& then.is_ordinary() && now.is_ordinary() ==> text == ago(
                quotient(now.stamp() - then.stamp(), 1_000_000_000),
                rfc3339_day(timestamp, DAY_PATTERN@)->0,
            )
        },
        None => rfc3339_day(timestamp, DAY_PATTERN@) is None && text == timestamp,
    }
}

/// What a timestamp reads as at a given moment.
pub fn relative_time_at(timestamp: &str, now: Timestamp) -> (text: String)
    ensures
        text@ == relative_at(timestamp@, now),
        tells(text@, timestamp@, now),
{
    match (parse_rfc3339(timestamp), format_day(timestamp, DAY_PATTERN)) {
        (Some(then), Some(day)) => match count_seconds(then, now) {
            Some(seconds) => ago_text(seconds, day),
            None => timestamp.to_owned(),
        },
        _ => timestamp.to_owned(),
    }
}

/// Relative time, so "2m ago" beats an ISO timestamp in a table.
pub fn relative_time(timestamp: &str) -> (text: String)
    ensures
        exists|now: Timestamp|
            text@ == #[trigger] relative_at(timestamp@, now) && tells(text@, timestamp@, now),
        rfc3339_instant(timestamp@) is None ==> text@ == timestamp@,
{
    let now = read_clock();
    relative_time_at(timestamp, now)
}

/// Points of the calendar come one before the other as their nanoseconds since the
/// epoch do.
pub proof fn earlier_is_fewer_nanoseconds(a: Timestamp, b: Timestamp)
    requires
        a.nanos < 1_000_000_000,
        b.nanos < 1_000_000_000,
    ensures
        a.precedes(b) <==> a.seconds * 1_000_000_000 + a.nanos < b.seconds * 1_000_000_000
            + b.nanos,
        a.stamp() == a.seconds * 1_000_000_000 + a.nanos,
        a.is_ordinary() <==> -8_334_601_228_800 <= a.seconds <= 8_210_266_876_799,
{
}

/// A point is ordinary exactly where it is in the calendar and in no leap second.
pub proof fn ordinary_points_are_in_the_calendar(at: Timestamp)
    ensures
        at.is_ordinary() <==> -8_334_601_228_800 <= at.seconds <= 8_210_266_876_799 && at.nanos
            < 1_000_000_000,
{
}

/// The start of an hour is a full hour, no later than the moment and less than an
/// hour before it. It is there for every moment whose nanoseconds since the epoch
/// fit in 64 bits.
pub proof fn an_hour_starts_on_the_hour(start: Option<Timestamp>, at: Timestamp)
    requires
        is_start_of_hour(start, at),
        at.nanos < 1_000_000_000,
    ensures
        start is Some <==> i64::MIN <= at.seconds * 1_000_000_000 + at.nanos <= i64::MAX,
        start matches Some(hour) ==> {
            &&& hour.nanos == 0
            &&& hour.seconds % 3_600 == 0
            &&& hour.seconds <= at.seconds < hour.seconds + 3_600
        },
{
    if start is Some {
        let seconds = at.seconds - at.seconds % SECONDS_PER_HOUR;
        assert(i64::MIN <= seconds <= i64::MAX);
    }
}

/// Division drops the fraction: what is left has the sign of the whole and is
/// smaller than the divisor.
pub proof fn division_drops_the_fraction(n: int, d: int)
    requires
        d > 0,
    ensures
        n >= 0 ==> 0 <= n - quotient(n, d) * d < d,
        n <= 0 ==> -d < n - quotient(n, d) * d <= 0,
{
    if n >= 0 {
        assert(0 <= n - (n / d) * d < d) by (nonlinear_arith)
            requires
                n >= 0,
                d > 0,
        ;
    } else {
        let m = -n;
        assert(0 <= m - (m / d) * d < d) by (nonlinear_arith)
            requires
                m >= 0,
                d > 0,
        ;
        let q = m / d;
        assert((-q) * d == -(q * d)) by (nonlinear_arith);
    }
}

/// How a timestamp reads: by the time since, in nanoseconds, which are counted in
/// whole minutes, hours and days, and after thirty days by its day.
pub proof fn a_timestamp_reads_by_its_age(
    text: Seq<char>,
    timestamp: Seq<char>,
    then: Timestamp,
    now: Timestamp,
)
    requires
        tells(text, timestamp, now),
        rfc3339_instant(timestamp) == Some(then),
        -8_334_601_228_800 <= then.seconds <= 8_210_266_876_799,
        -8_334_601_228_800 <= now.seconds <= 8_210_266_876_799,
        then.nanos < 1_000_000_000,
        now.nanos < 1_000_000_000,
    ensures
        ({
            let age = (now.seconds - then.seconds) * 1_000_000_000 + (now.nanos - then.nanos);
            &&& age < 60_000_000_000 ==> text == "just now"@
            &&& 60_000_000_000 <= age < 3_600_000_000_000 ==> text == decimal(
                (age / 60_000_000_000) as nat,
            ) + "m ago"@
            &&& 3_600_000_000_000 <= age < 86_400_000_000_000 ==> text == decimal(
                (age / 3_600_000_000_000) as nat,
            ) + "h ago"@
            &&& 86_400_000_000_000 <= age < 2_592_000_000_000_000 ==> text == decimal(
                (age / 86_400_000_000_000) as nat,
            ) + "d ago"@
            &&& age >= 2_592_000_000_000_000 ==> Some(text) == rfc3339_day(
                timestamp,
                "%d %b %Y"@,
            )
        }),
{
    let age = (now.seconds - then.seconds) * 1_000_000_000 + (now.nanos - then.nanos);
    assert(now.stamp() - then.stamp() == age);
    let seconds = quotient(age, 1_000_000_000);
    if age >= 0 {
        assert(seconds == age / 1_000_000_000);
        assert(seconds / 60 == age / 60_000_000_000);
        assert(seconds / 3_600 == age / 3_600_000_000_000);
        assert(seconds / 86_400 == age / 86_400_000_000_000);
    }
}

} // verus!
