//! Points in time.

use vstd::prelude::*;
use vstd::string::*;

verus! {

broadcast use vstd::string::group_string_axioms;

/// A point in time: seconds since the Unix epoch, and nanoseconds.
#[derive(Debug, Clone, Copy, PartialEq, Eq, Structural)]
pub struct Moment {
    pub secs: i64,
    pub nanos: u32,
}

/// The point in time that a text stands for in the given format, if it stands for one.
pub uninterp spec fn parsed_time(text: Seq<char>, format: Seq<char>) -> Option<(i64, u32)>;

/// The day of the month on a day of the Gregorian calendar, counted from 1 January 1970. Years
/// count from 1 March here, so that the leap day is the last of its year, and eras of 400 years
/// from 1 March of the year 0.
pub open spec fn day_of_month(days: int) -> int {
    let day_of_era = (days + 719_468) % 146_097;
    let year_of_era = (day_of_era - day_of_era / 1_460 + day_of_era / 36_524 - day_of_era
        / 146_096) / 365;
    let day_of_year = day_of_era - (365 * year_of_era + year_of_era / 4 - year_of_era / 100);
    let month = (5 * day_of_year + 2) / 153;
    day_of_year - (153 * month + 2) / 5 + 1
}

/// Whether the calendar reaches a time in seconds since the Unix epoch: the years from -262143 to
/// 262142.
pub open spec fn in_calendar(secs: i64) -> bool {
    -8_334_601_228_800 <= secs <= 8_210_266_876_799
}

/// The current time, from `chrono::Utc::now`. Nothing is claimed of the reading.
#[verifier::external_body]
pub(crate) fn now() -> (r: Moment)
{
    let t = chrono::Utc::now();
    Moment { secs: t.timestamp(), nanos: t.timestamp_subsec_nanos() }
}

/// The current time in a format, from `DelayedFormat` of `chrono::Utc::now`. Only formats with
/// known specifiers are admitted. Nothing is claimed of the text.
#[verifier::external_body]
pub(crate) fn now_formatted(format: &str) -> (r: String)
    requires
        format@ == "%Y%m%d_%H%M%S"@,
{
    chrono::Utc::now().format(format).to_string()
}

/// `chrono::DateTime::parse_from_str`, taken to UTC. The result depends on text and format
/// alone.
#[verifier::external_body]
pub(crate) fn parse_time(text: &str, format: &str) -> (r: Option<Moment>)
    ensures
        r is Some == parsed_time(text@, format@) is Some,
        r matches Some(m) ==> parsed_time(text@, format@) == Some((m.secs, m.nanos)),
{
    match chrono::DateTime::parse_from_str(text, format) {
        Ok(t) => Some(Moment { secs: t.timestamp(), nanos: t.timestamp_subsec_nanos() }),
        Err(_) => None,
    }
}

/// `chrono::Datelike::day` of `chrono::DateTime::from_timestamp`: the day of the month in UTC,
/// where the calendar reaches that far.
#[verifier::external_body]
fn read_day_of_month(secs: i64) -> (r: Option<u32>)
    ensures
        r is Some == in_calendar(secs),
        r matches Some(d) ==> d == day_of_month(secs as int / 86_400),
{
    match chrono::DateTime::from_timestamp(secs, 0) {
        Some(t) => Some(chrono::Datelike::day(&t)),
        None => None,
    }
}

impl Moment {
    /// Nanoseconds since the Unix epoch.
    pub open spec fn instant(self) -> int {
        self.secs * 1_000_000_000 + self.nanos
    }

    /// Whether the time is before another: seconds count first.
    pub open spec fn before(self, other: Moment) -> bool {
        self.secs < other.secs || (self.secs == other.secs && self.nanos < other.nanos)
    }

    /// Whether the time is on a Sunday. The Unix epoch was on a Thursday.
    pub open spec fn on_sunday(self) -> bool {
        (self.secs as int / 86_400 + 4) % 7 == 0
    }

    /// Whether the time is on the first day of a month.
    pub open spec fn on_first_of_month(self) -> bool {
        in_calendar(self.secs) && day_of_month(self.secs as int / 86_400) == 1
    }

    /// Tells whether the time is before another.
    pub fn is_before(&self, other: &Moment) -> (r: bool)
        ensures
            r == self.before(*other),
    {
        self.secs < other.secs || (self.secs == other.secs && self.nanos < other.nanos)
    }

    /// Tells whether the time is on a Sunday.
    pub fn is_on_sunday(&self) -> (r: bool)
        ensures
            r == self.on_sunday(),
    {
        // Whole weeks are added so that the division has no negative operand.
        let s: i128 = self.secs as i128 + 604_800 * 100_000_000_000_000;
        (s / 86_400 + 4) % 7 == 0
    }

    /// Tells whether the time is on the first day of a month.
    pub fn is_on_first_of_month(&self) -> (r: bool)
        ensures
            r == self.on_first_of_month(),
    {
        match read_day_of_month(self.secs) {
            Some(day) => day == 1,
            None => false,
        }
    }
}

/// A day in nanoseconds.
pub const DAY_NANOS: i128 = 86_400_000_000_000;

/// The whole days from `then` to `now`, toward zero.
pub open spec fn days_between(now: Moment, then: Moment) -> int {
    let d = now.instant() - then.instant();
    if d >= 0 {
        d / DAY_NANOS as int
    } else {
        -((-d) / DAY_NANOS as int)
    }
}

/// The whole days from `then` to `now`, toward zero.
pub fn whole_days(now: &Moment, then: &Moment) -> (r: i128)
    ensures
        r == days_between(*now, *then),
{
    let a: i128 = now.secs as i128 * 1_000_000_000 + now.nanos as i128;
    let b: i128 = then.secs as i128 * 1_000_000_000 + then.nanos as i128;
    let d: i128 = a - b;
    if d >= 0 {
        d / DAY_NANOS
    } else {
        -((-d) / DAY_NANOS)
    }
}

} // verus!
