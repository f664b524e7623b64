//! Wall-clock timestamps with a resolution of one second.

use crate::text::text_of;
use std::fmt::Write;
use vstd::prelude::*;
use vstd::string::StringExecFns;

verus! {

/// Seconds in one minute.
pub const SECONDS_PER_MINUTE: i64 = 60;

/// Seconds in one hour.
pub const SECONDS_PER_HOUR: i64 = 3600;

/// Seconds in one day.
pub const SECONDS_PER_DAY: i64 = 86400;

/// A day of the week.
#[derive(Clone, Copy, Debug, PartialEq, Eq, Structural)]
pub enum Weekday {
    Mon,
    Tue,
    Wed,
    Thu,
    Fri,
    Sat,
    Sun,
}

impl Weekday {
    /// Days since Monday, as a number.
    pub open spec fn index(self) -> int {
        match self {
            Weekday::Mon => 0,
            Weekday::Tue => 1,
            Weekday::Wed => 2,
            Weekday::Thu => 3,
            Weekday::Fri => 4,
            Weekday::Sat => 5,
            Weekday::Sun => 6,
        }
    }

    /// The day that lies `index` days after Monday; Sunday for anything past 5.
    pub open spec fn from_index(index: int) -> Weekday {
        if index == 0 {
            Weekday::Mon
        } else if index == 1 {
            Weekday::Tue
        } else if index == 2 {
            Weekday::Wed
        } else if index == 3 {
            Weekday::Thu
        } else if index == 4 {
            Weekday::Fri
        } else if index == 5 {
            Weekday::Sat
        } else {
            Weekday::Sun
        }
    }

    /// Days since Monday: 0 for Monday up to 6 for Sunday.
    pub fn num_days_from_monday(&self) -> (n: u32)
        ensures
            n == self.index(),
            n < 7,
    {
        match self {
            Weekday::Mon => 0,
            Weekday::Tue => 1,
            Weekday::Wed => 2,
            Weekday::Thu => 3,
            Weekday::Fri => 4,
            Weekday::Sat => 5,
            Weekday::Sun => 6,
        }
    }
}

/// A reading of the local wall clock, in whole seconds since midnight of
/// 1 January 1970 on that same clock. Day 0 is a Thursday.
#[derive(Clone, Copy, Debug, PartialEq, Eq, Structural)]
pub struct Timestamp {
    pub secs: i64,
}

impl Timestamp {
    /// The number of the day this instant falls on; day 0 is 1 January 1970.
    pub open spec fn day(self) -> int {
        self.secs as int / 86400
    }

    /// Seconds elapsed since the midnight that began the day.
    pub open spec fn second_of_day(self) -> int {
        self.secs as int % 86400
    }

    /// Hour of the day, 0 to 23.
    pub open spec fn spec_hour(self) -> int {
        self.second_of_day() / 3600
    }

    /// The day of the week this instant falls on.
    pub open spec fn spec_weekday(self) -> Weekday {
        Weekday::from_index((self.day() + 3) % 7)
    }

    /// A timestamp from a count of seconds.
    pub fn from_secs(secs: i64) -> (t: Timestamp)
        ensures
            t.secs == secs,
    {
        Timestamp { secs }
    }

    /// The number of the day this instant falls on.
    pub fn day_number(&self) -> (d: i64)
        ensures
            d == self.day(),
    {
        if self.secs >= 0 {
            self.secs / SECONDS_PER_DAY
        } else {
            (self.secs + 1) / SECONDS_PER_DAY - 1
        }
    }

    /// Seconds elapsed since the midnight that began the day, 0 to 86399.
    pub fn seconds_from_midnight(&self) -> (s: u32)
        ensures
            s == self.second_of_day(),
            s < 86400,
    {
        let rest = self.secs % SECONDS_PER_DAY;
        if rest < 0 {
            (rest + SECONDS_PER_DAY) as u32
        } else {
            rest as u32
        }
    }

    /// Hour of the day, 0 to 23.
    pub fn hour(&self) -> (h: u32)
        ensures
            h == self.spec_hour(),
            h < 24,
    {
        self.seconds_from_midnight() / 3600
    }

    /// The day of the week this instant falls on.
    pub fn weekday(&self) -> (w: Weekday)
        ensures
            w == self.spec_weekday(),
    {
        let day = self.day_number();
        // Day 0 is a Thursday, three days after Monday.
        let shifted = day % 7 + 3;
        let index = if shifted < 0 {
            shifted + 7
        } else if shifted >= 7 {
            shifted - 7
        } else {
            shifted
        };
        assert(index == (day + 3) % 7);
        if index == 0 {
            Weekday::Mon
        } else if index == 1 {
            Weekday::Tue
        } else if index == 2 {
            Weekday::Wed
        } else if index == 3 {
            Weekday::Thu
        } else if index == 4 {
            Weekday::Fri
        } else if index == 5 {
            Weekday::Sat
        } else {
            Weekday::Sun
        }
    }
}

/// What `chrono` writes for the date and time that lies `secs` seconds
/// after the midnight that began 1 January 1970, in the form
/// `%Y-%m-%d %H:%M:%S`; nothing where it has no such date or cannot write
/// it.
pub uninterp spec fn datetime_formatted(secs: i64) -> Option<Seq<char>>;

/// Writes the date and time `secs` seconds after the midnight that began
/// 1 January 1970 as `chrono` does: `chrono::DateTime::from_timestamp`
/// makes the date, which `format` writes in the form `%Y-%m-%d %H:%M:%S`.
/// The contract only names the result: the same seconds are always written
/// the same. There is none where `chrono` has no such date or cannot write
/// it.
#[verifier::external_body]
fn format_datetime(secs: i64) -> (text: Option<String>)
    ensures
        text_of(text) == datetime_formatted(secs),
{
    let time = chrono::DateTime::from_timestamp(secs, 0)?;
    let mut text = String::new();
    match write!(text, "{}", time.format("%Y-%m-%d %H:%M:%S")) {
        Ok(()) => Some(text),
        Err(_) => None,
    }
}

impl Timestamp {
    /// The date and time as they are shown, such as `2025-11-04 09:00:00`;
    /// a note in their place where the date is beyond the calendar.
    pub open spec fn text(self) -> Seq<char> {
        time_shown(datetime_formatted(self.secs))
    }

    /// The date and time as they are shown, such as `2025-11-04 09:00:00`.
    pub fn display(&self) -> (s: String)
        ensures
            s@ == self.text(),
    {
        shown_time(format_datetime(self.secs))
    }
}

/// A date and time as it is shown, from what was written for it: that, or
/// a note in its place where nothing was.
pub open spec fn time_shown(text: Option<Seq<char>>) -> Seq<char> {
    match text {
        Some(text) => text,
        None => "(beyond the calendar)"@,
    }
}

/// A date and time as it is shown, from what was written for it.
pub fn shown_time(text: Option<String>) -> (s: String)
    ensures
        s@ == time_shown(text_of(text)),
{
    match text {
        Some(text) => text,
        None => String::from_str("(beyond the calendar)"),
    }
}

/// What the local wall clock shows now, read through `chrono::Local::now`.
/// Nothing is claimed of the reading: two calls may differ in any way.
#[verifier::external_body]
pub(crate) fn current_time() -> (now: Timestamp) {
    Timestamp { secs: chrono::Local::now().naive_local().and_utc().timestamp() }
}

} // verus!
