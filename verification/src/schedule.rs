//! From a time expression to a timestamp.
//!
//! Three kinds of expression are read. `+10 hours` counts from now, in
//! minutes, hours or days. `Monday` is nine in the morning on the next day
//! of that name. `2025-11-04 09:00` is that very time. An expression that
//! begins with `+` is read as the first kind only; any other is tried as a
//! day's name and then as a date and time.

use crate::text::{
    all_digits, all_space, chars_of, decimal_value, digits_end, is_decimal_digit, is_digit,
    is_space,
    is_whitespace, lemma_digits_end, lemma_digits_run, lemma_spaces_end, lemma_spaces_run,
    parse_digits, spaces_end, spells, spells_from,
};
use crate::time::{
    SECONDS_PER_DAY, SECONDS_PER_HOUR, SECONDS_PER_MINUTE, Timestamp, Weekday, current_time,
};
use vstd::prelude::*;

verus! {

/// Why a time expression was not accepted.
#[derive(Clone, Copy, Debug, PartialEq, Eq, Structural)]
pub enum ParseError {
    /// It begins with `+` but is not a count and a unit.
    BadRelativeFormat,
    /// The count is larger than any this library can hold.
    AmountTooLarge,
    /// The count is zero.
    AmountNotPositive,
    /// It is not the name of a day.
    UnknownDay,
    /// It is not a date and time in one of the accepted forms.
    BadDateTimeFormat,
    /// The date and time it names is not after now.
    InPast,
    /// It is none of the three kinds.
    Unrecognized,
    /// The time it names lies beyond what the clock can show.
    OutOfRange,
}

impl ParseError {
    /// The sentence that tells the user what went wrong.
    pub open spec fn text(self) -> Seq<char> {
        match self {
            ParseError::BadRelativeFormat => "bad format, try: +10 hours"@,
            ParseError::AmountTooLarge => "amount is too large"@,
            ParseError::AmountNotPositive => "amount must be positive"@,
            ParseError::UnknownDay => "unknown day"@,
            ParseError::BadDateTimeFormat => "bad datetime format, try: 2025-11-04 09:00"@,
            ParseError::InPast => "that time is in the past"@,
            ParseError::Unrecognized => "couldn't parse time. try: +10 hours, Monday, or 2025-11-04 09:00"@,
            ParseError::OutOfRange => "that time is out of range"@,
        }
    }

    /// The sentence that tells the user what went wrong.
    pub fn message(&self) -> (s: &'static str)
        ensures
            s@ == self.text(),
    {
        match self {
            ParseError::BadRelativeFormat => "bad format, try: +10 hours",
            ParseError::AmountTooLarge => "amount is too large",
            ParseError::AmountNotPositive => "amount must be positive",
            ParseError::UnknownDay => "unknown day",
            ParseError::BadDateTimeFormat => "bad datetime format, try: 2025-11-04 09:00",
            ParseError::InPast => "that time is in the past",
            ParseError::Unrecognized => "couldn't parse time. try: +10 hours, Monday, or 2025-11-04 09:00",
            ParseError::OutOfRange => "that time is out of range",
        }
    }
}

/// A unit that a count from now is given in.
#[derive(Clone, Copy, Debug, PartialEq, Eq, Structural)]
pub enum Unit {
    Minute,
    Hour,
    Day,
}

impl Unit {
    /// The length of the unit in seconds.
    pub open spec fn seconds(self) -> int {
        match self {
            Unit::Minute => SECONDS_PER_MINUTE as int,
            Unit::Hour => SECONDS_PER_HOUR as int,
            Unit::Day => SECONDS_PER_DAY as int,
        }
    }

    /// The length of the unit in seconds.
    pub fn length(&self) -> (seconds: i64)
        ensures
            seconds == self.seconds(),
            0 < seconds <= 86400,
    {
        match self {
            Unit::Minute => SECONDS_PER_MINUTE,
            Unit::Hour => SECONDS_PER_HOUR,
            Unit::Day => SECONDS_PER_DAY,
        }
    }
}

/// The unit that `s` names: `minute`, `hour` or `day`, with or without an
/// `s` at the end, in any mix of upper and lower case.
pub open spec fn unit_named(s: Seq<char>) -> Option<Unit> {
    if spells(s, "hour"@) || spells(s, "hours"@) {
        Some(Unit::Hour)
    } else if spells(s, "day"@) || spells(s, "days"@) {
        Some(Unit::Day)
    } else if spells(s, "minute"@) || spells(s, "minutes"@) {
        Some(Unit::Minute)
    } else {
        None
    }
}

/// The day that `s` names in full, in any mix of upper and lower case.
pub open spec fn weekday_named(s: Seq<char>) -> Option<Weekday> {
    if spells(s, "monday"@) {
        Some(Weekday::Mon)
    } else if spells(s, "tuesday"@) {
        Some(Weekday::Tue)
    } else if spells(s, "wednesday"@) {
        Some(Weekday::Wed)
    } else if spells(s, "thursday"@) {
        Some(Weekday::Thu)
    } else if spells(s, "friday"@) {
        Some(Weekday::Fri)
    } else if spells(s, "saturday"@) {
        Some(Weekday::Sat)
    } else if spells(s, "sunday"@) {
        Some(Weekday::Sun)
    } else {
        None
    }
}

/// The time that a count from `now` names.
///
/// The expression is a `+`, a count in digits, white space or none, and a
/// unit. The count must fit in 63 bits and not be zero, and the time that
/// many units after `now` must be one the clock can show.
pub open spec fn relative_time(s: Seq<char>, now: Timestamp) -> Result<Timestamp, ParseError> {
    let count_end = digits_end(s, 1);
    let unit_start = spaces_end(s, count_end);
    let count = decimal_value(s.subrange(1, count_end));
    if s.len() == 0 || s[0] != '+' || count_end == 1 {
        Err(ParseError::BadRelativeFormat)
    } else {
        match unit_named(s.subrange(unit_start, s.len() as int)) {
            None => Err(ParseError::BadRelativeFormat),
            Some(unit) => if count > i64::MAX {
                Err(ParseError::AmountTooLarge)
            } else if count == 0 {
                Err(ParseError::AmountNotPositive)
            } else if now.secs + count * unit.seconds() > i64::MAX {
                Err(ParseError::OutOfRange)
            } else {
                Ok(Timestamp { secs: (now.secs + count * unit.seconds()) as i64 })
            },
        }
    }
}

/// How many days after today the next `target` lies. Today counts while it
/// is not yet nine; from nine on, the same day of next week is meant.
pub open spec fn days_ahead(today: Weekday, hour: int, target: Weekday) -> int {
    if today == target {
        if hour >= 9 {
            7
        } else {
            0
        }
    } else if target.index() > today.index() {
        target.index() - today.index()
    } else {
        7 - (today.index() - target.index())
    }
}

/// Nine in the morning on the next `target` as seen from `now`, in seconds.
pub open spec fn next_morning(target: Weekday, now: Timestamp) -> int {
    (now.day() + days_ahead(now.spec_weekday(), now.spec_hour(), target)) * 86400 + 9 * 3600
}

/// The time that the name of a day names, as seen from `now`.
pub open spec fn named_day(s: Seq<char>, now: Timestamp) -> Result<Timestamp, ParseError> {
    match weekday_named(s) {
        None => Err(ParseError::UnknownDay),
        Some(target) => if i64::MIN <= next_morning(target, now) <= i64::MAX {
            Ok(Timestamp { secs: next_morning(target, now) as i64 })
        } else {
            Err(ParseError::OutOfRange)
        },
    }
}

/// What `chrono::NaiveDateTime::parse_from_str` makes of `text` under
/// `format`: the date and time it reads, in seconds since the midnight that
/// began 1 January 1970, or nothing where it refuses the text.
pub uninterp spec fn naive_datetime_parsed(text: Seq<char>, format: Seq<char>) -> Option<i64>;

/// The time that a date and time names, from its readings under the four
/// accepted forms: the first reading there is.
pub open spec fn first_reading(
    spaced_to_seconds: Option<i64>,
    spaced_to_minutes: Option<i64>,
    joined_to_seconds: Option<i64>,
    joined_to_minutes: Option<i64>,
) -> Result<Timestamp, ParseError> {
    if let Some(secs) = spaced_to_seconds {
        Ok(Timestamp { secs })
    } else if let Some(secs) = spaced_to_minutes {
        Ok(Timestamp { secs })
    } else if let Some(secs) = joined_to_seconds {
        Ok(Timestamp { secs })
    } else if let Some(secs) = joined_to_minutes {
        Ok(Timestamp { secs })
    } else {
        Err(ParseError::BadDateTimeFormat)
    }
}

/// The time that a date and time names: the reading under the first of the
/// four accepted forms that fits. The date and the time are parted by a
/// space or by a `T`, and the time goes down to the second or to the
/// minute.
pub open spec fn absolute_time(s: Seq<char>) -> Result<Timestamp, ParseError> {
    first_reading(
        naive_datetime_parsed(s, "%Y-%m-%d %H:%M:%S"@),
        naive_datetime_parsed(s, "%Y-%m-%d %H:%M"@),
        naive_datetime_parsed(s, "%Y-%m-%dT%H:%M:%S"@),
        naive_datetime_parsed(s, "%Y-%m-%dT%H:%M"@),
    )
}

/// The time that an expression without a `+` in front names, from what it
/// names as a day and as a date and time: the day, where that gives a time
/// after `now`; else the date and time, which must lie after `now`; else
/// the expression is not recognised.
pub open spec fn chosen_time(
    named: Result<Timestamp, ParseError>,
    absolute: Result<Timestamp, ParseError>,
    now: Timestamp,
) -> Result<Timestamp, ParseError> {
    if named is Ok && named->Ok_0.secs > now.secs {
        named
    } else {
        match absolute {
            Ok(time) => if time.secs <= now.secs {
                Err(ParseError::InPast)
            } else {
                Ok(time)
            },
            Err(_) => Err(ParseError::Unrecognized),
        }
    }
}

/// The time that an expression of any of the three kinds names, as seen
/// from `now`.
///
/// One that begins with `+` is a count from now and nothing else. Any
/// other is the name of a day where that gives a time after `now`; else a
/// date and time, which must lie after `now`; else it is not recognised.
pub open spec fn time_spec(s: Seq<char>, now: Timestamp) -> Result<Timestamp, ParseError> {
    if s.len() > 0 && s[0] == '+' {
        relative_time(s, now)
    } else {
        chosen_time(named_day(s, now), absolute_time(s), now)
    }
}

/// Reads `text` as a date and time in the form `format` with
/// `chrono::NaiveDateTime::parse_from_str`, and gives the reading in seconds
/// since the midnight that began 1 January 1970. The contract only names
/// the result: the same text and form always read the same.
#[verifier::external_body]
fn parse_naive_datetime(text: &str, format: &str) -> (secs: Option<i64>)
    ensures
        secs == naive_datetime_parsed(text@, format@),
{
    match chrono::NaiveDateTime::parse_from_str(text, format) {
        Ok(time) => Some(time.and_utc().timestamp()),
        Err(_) => None,
    }
}

/// The unit that the characters of `v` from `start` on name.
fn unit_from(v: &Vec<char>, start: usize) -> (unit: Option<Unit>)
    requires
        start <= v.len(),
    ensures
        unit == unit_named(v@.subrange(start as int, v.len() as int)),
{
    if spells_from(v, start, "hour") || spells_from(v, start, "hours") {
        Some(Unit::Hour)
    } else if spells_from(v, start, "day") || spells_from(v, start, "days") {
        Some(Unit::Day)
    } else if spells_from(v, start, "minute") || spells_from(v, start, "minutes") {
        Some(Unit::Minute)
    } else {
        None
    }
}

/// The day that `spec` names in full.
pub fn weekday_from_name(spec: &str) -> (day: Option<Weekday>)
    ensures
        day == weekday_named(spec@),
{
    let v = chars_of(spec);
    assert(v@.subrange(0, v.len() as int) =~= spec@);
    if spells_from(&v, 0, "monday") {
        Some(Weekday::Mon)
    } else if spells_from(&v, 0, "tuesday") {
        Some(Weekday::Tue)
    } else if spells_from(&v, 0, "wednesday") {
        Some(Weekday::Wed)
    } else if spells_from(&v, 0, "thursday") {
        Some(Weekday::Thu)
    } else if spells_from(&v, 0, "friday") {
        Some(Weekday::Fri)
    } else if spells_from(&v, 0, "saturday") {
        Some(Weekday::Sat)
    } else if spells_from(&v, 0, "sunday") {
        Some(Weekday::Sun)
    } else {
        None
    }
}

/// Reads a count from `now`, such as `+10 hours`, `+2 days` or
/// `+30 minutes`.
pub fn parse_relative_time_at(spec: &str, now: Timestamp) -> (result: Result<Timestamp, ParseError>)
    ensures
        result == relative_time(spec@, now),
{
    let v = chars_of(spec);
    let n = v.len();
    if n == 0 || v[0] != '+' {
        return Err(ParseError::BadRelativeFormat);
    }
    let mut count_end: usize = 1;
    while count_end < n && is_decimal_digit(v[count_end])
        invariant
            n == v.len(),
            1 <= count_end <= n,
            digits_end(v@, count_end as int) == digits_end(v@, 1),
            all_digits(v@.subrange(1, count_end as int)),
        decreases n - count_end,
    {
        let ghost before = v@.subrange(1, count_end as int);
        count_end += 1;
        assert forall|i: int| 0 <= i < v@.subrange(1, count_end as int).len() implies is_digit(
            #[trigger] v@.subrange(1, count_end as int)[i],
        ) by {
            if i < before.len() {
                assert(v@.subrange(1, count_end as int)[i] == before[i]);
            }
        }
    }
    let mut unit_start: usize = count_end;
    while unit_start < n && is_whitespace(v[unit_start])
        invariant
            n == v.len(),
            count_end <= unit_start <= n,
            spaces_end(v@, unit_start as int) == spaces_end(v@, count_end as int),
        decreases n - unit_start,
    {
        unit_start += 1;
    }
    let unit = unit_from(&v, unit_start);
    if count_end == 1 {
        return Err(ParseError::BadRelativeFormat);
    }
    let seconds: i128 = match unit {
        None => {
            return Err(ParseError::BadRelativeFormat);
        },
        Some(unit) => unit.length() as i128,
    };
    let count = match parse_digits(&v, 1, count_end, 0x7fff_ffff_ffff_ffff) {
        None => {
            return Err(ParseError::AmountTooLarge);
        },
        Some(count) => count,
    };
    if count == 0 {
        return Err(ParseError::AmountNotPositive);
    }
    assert(count as int * seconds as int <= 0x7fff_ffff_ffff_ffff * 86400) by (nonlinear_arith)
        requires
            0 <= count <= 0x7fff_ffff_ffff_ffff,
            0 <= seconds <= 86400,
    ;
    assert(count as int * seconds as int >= 0) by (nonlinear_arith)
        requires
            0 <= count,
            0 <= seconds,
    ;
    let total: i128 = now.secs as i128 + count as i128 * seconds;
    if total > 0x7fff_ffff_ffff_ffff {
        Err(ParseError::OutOfRange)
    } else {
        Ok(Timestamp { secs: total as i64 })
    }
}

/// Reads the name of a day, such as `Monday`: nine in the morning on the
/// next day of that name as seen from `now`.
pub fn parse_named_day_at(spec: &str, now: Timestamp) -> (result: Result<Timestamp, ParseError>)
    ensures
        result == named_day(spec@, now),
{
    let target = match weekday_from_name(spec) {
        None => {
            return Err(ParseError::UnknownDay);
        },
        Some(target) => target,
    };
    let today = now.weekday();
    let ahead: i128 = if today == target {
        if now.hour() >= 9 {
            7
        } else {
            0
        }
    } else {
        let from = today.num_days_from_monday();
        let to = target.num_days_from_monday();
        if to > from {
            (to - from) as i128
        } else {
            (7 - (from - to)) as i128
        }
    };
    let seconds: i128 = (now.day_number() as i128 + ahead) * 86400 + 9 * 3600;
    if seconds < -0x8000_0000_0000_0000 || seconds > 0x7fff_ffff_ffff_ffff {
        Err(ParseError::OutOfRange)
    } else {
        Ok(Timestamp { secs: seconds as i64 })
    }
}

/// The time that a date and time names, from its readings under the four
/// accepted forms: the first reading there is.
pub fn absolute_time_from(
    spaced_to_seconds: Option<i64>,
    spaced_to_minutes: Option<i64>,
    joined_to_seconds: Option<i64>,
    joined_to_minutes: Option<i64>,
) -> (result: Result<Timestamp, ParseError>)
    ensures
        result == first_reading(
            spaced_to_seconds,
            spaced_to_minutes,
            joined_to_seconds,
            joined_to_minutes,
        ),
{
    if let Some(secs) = spaced_to_seconds {
        Ok(Timestamp { secs })
    } else if let Some(secs) = spaced_to_minutes {
        Ok(Timestamp { secs })
    } else if let Some(secs) = joined_to_seconds {
        Ok(Timestamp { secs })
    } else if let Some(secs) = joined_to_minutes {
        Ok(Timestamp { secs })
    } else {
        Err(ParseError::BadDateTimeFormat)
    }
}

/// Reads a date and time, such as `2025-11-04 09:00`. The date and the time
/// are parted by a space or a `T`, and the seconds may be left out.
pub fn parse_absolute_time(spec: &str) -> (result: Result<Timestamp, ParseError>)
    ensures
        result == absolute_time(spec@),
{
    absolute_time_from(
        parse_naive_datetime(spec, "%Y-%m-%d %H:%M:%S"),
        parse_naive_datetime(spec, "%Y-%m-%d %H:%M"),
        parse_naive_datetime(spec, "%Y-%m-%dT%H:%M:%S"),
        parse_naive_datetime(spec, "%Y-%m-%dT%H:%M"),
    )
}

/// The time that an expression without a `+` in front names, from what it
/// names as a day and as a date and time.
pub fn choose_time(
    named: Result<Timestamp, ParseError>,
    absolute: Result<Timestamp, ParseError>,
    now: Timestamp,
) -> (result: Result<Timestamp, ParseError>)
    ensures
        result == chosen_time(named, absolute, now),
{
    if let Ok(time) = named {
        if time.secs > now.secs {
            return Ok(time);
        }
    }
    match absolute {
        Ok(time) => {
            if time.secs <= now.secs {
                Err(ParseError::InPast)
            } else {
                Ok(time)
            }
        },
        Err(_) => Err(ParseError::Unrecognized),
    }
}

/// Whether `spec` begins with `+`.
fn starts_with_plus(spec: &str) -> (b: bool)
    ensures
        b == (spec@.len() > 0 && spec@[0] == '+'),
{
    spec.unicode_len() > 0 && spec.get_char(0) == '+'
}

/// Reads a time expression of any of the three kinds, as seen from `now`.
pub fn parse_time_spec_at(spec: &str, now: Timestamp) -> (result: Result<Timestamp, ParseError>)
    ensures
        result == time_spec(spec@, now),
{
    if starts_with_plus(spec) {
        parse_relative_time_at(spec, now)
    } else {
        choose_time(parse_named_day_at(spec, now), parse_absolute_time(spec), now)
    }
}

/// Reads a count from now, such as `+10 hours`, against the clock.
pub fn parse_relative_time(spec: &str) -> (result: Result<Timestamp, ParseError>)
    ensures
        exists|now: Timestamp| result == relative_time(spec@, now),
{
    let now = current_time();
    parse_relative_time_at(spec, now)
}

/// Reads the name of a day, such as `Monday`, against the clock.
pub fn parse_named_day(spec: &str) -> (result: Result<Timestamp, ParseError>)
    ensures
        exists|now: Timestamp| result == named_day(spec@, now),
{
    let now = current_time();
    parse_named_day_at(spec, now)
}

/// Reads a time expression of any of the three kinds against the clock.
pub fn parse_time_spec(spec: &str) -> (result: Result<Timestamp, ParseError>)
    ensures
        exists|now: Timestamp| result == time_spec(spec@, now),
{
    let now = current_time();
    parse_time_spec_at(spec, now)
}

/// A unit's name begins with a letter: neither a digit nor white space.
proof fn lemma_unit_begins_with_letter(name: Seq<char>)
    requires
        unit_named(name) is Some,
    ensures
        name.len() > 0,
        !is_digit(name[0]),
        !is_space(name[0]),
        name[0] != '+',
{
    reveal_strlit("hour");
    reveal_strlit("hours");
    reveal_strlit("day");
    reveal_strlit("days");
    reveal_strlit("minute");
    reveal_strlit("minutes");
    let c = crate::text::lower(name[0]);
    assert(c == 'h' || c == 'd' || c == 'm');
}

/// A day's name begins with a letter, not with `+`.
proof fn lemma_day_begins_with_letter(name: Seq<char>)
    requires
        weekday_named(name) is Some,
    ensures
        name.len() > 0,
        name[0] != '+',
{
    reveal_strlit("monday");
    reveal_strlit("tuesday");
    reveal_strlit("wednesday");
    reveal_strlit("thursday");
    reveal_strlit("friday");
    reveal_strlit("saturday");
    reveal_strlit("sunday");
    let c = crate::text::lower(name[0]);
    assert(c == 'm' || c == 't' || c == 'w' || c == 'f' || c == 's');
}

/// A count from now is that many units after now.
///
/// For a `+`, a count written in digits, any white space or none, and the
/// name of a unit in any mix of upper and lower case: where the count fits
/// in 63 bits and is not zero, and the time lies within what the clock can
/// show, the expression names the time exactly that many units after `now`.
/// Else it is refused, for the reason that comes first of these.
pub proof fn law_relative_offset(
    digits: Seq<char>,
    gap: Seq<char>,
    name: Seq<char>,
    now: Timestamp,
)
    requires
        digits.len() > 0,
        all_digits(digits),
        all_space(gap),
        unit_named(name) is Some,
    ensures
        ({
            let s = seq!['+'] + digits + gap + name;
            let count = decimal_value(digits);
            let length = unit_named(name)->Some_0.seconds();
            &&& relative_time(s, now) == if count > i64::MAX {
                Err::<Timestamp, ParseError>(ParseError::AmountTooLarge)
            } else if count == 0 {
                Err(ParseError::AmountNotPositive)
            } else if now.secs + count * length > i64::MAX {
                Err(ParseError::OutOfRange)
            } else {
                Ok(Timestamp { secs: (now.secs + count * length) as i64 })
            }
            &&& time_spec(s, now) == relative_time(s, now)
        }),
{
    let s = seq!['+'] + digits + gap + name;
    let count_end = 1 + digits.len();
    let unit_start = count_end + gap.len();
    lemma_unit_begins_with_letter(name);
    assert(s[0] == '+');
    assert forall|k: int| 1 <= k < count_end implies is_digit(#[trigger] s[k]) by {
        assert(s[k] == digits[k - 1]);
    }
    assert forall|k: int| count_end <= k < unit_start implies is_space(#[trigger] s[k]) by {
        assert(s[k] == gap[k - count_end]);
    }
    assert(s[unit_start as int] == name[0]);
    if gap.len() > 0 {
        assert(s[count_end as int] == gap[0]);
        assert(is_space(gap[0]));
    }
    lemma_digits_end(s, 1, count_end as int);
    lemma_spaces_end(s, count_end as int, unit_start as int);
    assert(s.subrange(1, count_end as int) =~= digits);
    assert(s.subrange(unit_start as int, s.len() as int) =~= name);
}

/// Whatever a count from now accepts has the form of one.
///
/// Where an expression is not refused for its form, it is a `+`, a count
/// written in digits, white space or none, and the name of a unit; and
/// where it is accepted, the count is at least one.
pub proof fn law_relative_form(s: Seq<char>, now: Timestamp)
    requires
        relative_time(s, now) != Err::<Timestamp, ParseError>(ParseError::BadRelativeFormat),
    ensures
        exists|digits: Seq<char>, gap: Seq<char>, name: Seq<char>|
            {
                &&& #[trigger] (seq!['+'] + digits + gap + name) == s
                &&& digits.len() > 0
                &&& all_digits(digits)
                &&& all_space(gap)
                &&& unit_named(name) is Some
                &&& relative_time(s, now) is Ok ==> decimal_value(digits) >= 1
            },
{
    let count_end = digits_end(s, 1);
    lemma_digits_run(s, 1);
    let unit_start = spaces_end(s, count_end);
    lemma_spaces_run(s, count_end);
    let digits = s.subrange(1, count_end);
    let gap = s.subrange(count_end, unit_start);
    let name = s.subrange(unit_start, s.len() as int);
    assert(seq!['+'] + digits + gap + name =~= s);
    assert forall|i: int| 0 <= i < digits.len() implies is_digit(#[trigger] digits[i]) by {
        assert(digits[i] == s[1 + i]);
    }
    assert forall|i: int| 0 <= i < gap.len() implies is_space(#[trigger] gap[i]) by {
        assert(gap[i] == s[count_end + i]);
    }
}

/// The name of a day means nine in the morning on the next such day.
///
/// For the name of any day, in any mix of upper and lower case, and any
/// `now` from which that morning is within what the clock can show: the
/// time named falls on that day of the week, at 09:00:00, and after `now`.
/// It is today while today is that day and it is not yet nine; it is a week
/// from today once it is nine or later; else it is within the six days
/// after today. Read as a time expression, the name means the same.
pub proof fn law_named_day(name: Seq<char>, now: Timestamp)
    requires
        weekday_named(name) is Some,
        i64::MIN <= next_morning(weekday_named(name)->Some_0, now) <= i64::MAX,
    ensures
        ({
            let target = weekday_named(name)->Some_0;
            let time = Timestamp { secs: next_morning(target, now) as i64 };
            let ahead = time.day() - now.day();
            &&& named_day(name, now) == Ok::<Timestamp, ParseError>(time)
            &&& time_spec(name, now) == Ok::<Timestamp, ParseError>(time)
            &&& time.spec_weekday() == target
            &&& time.second_of_day() == 9 * 3600
            &&& time.spec_hour() == 9
            &&& time.secs > now.secs
            &&& now.spec_weekday() == target && now.spec_hour() >= 9 ==> ahead == 7
            &&& now.spec_weekday() == target && now.spec_hour() < 9 ==> ahead == 0
            &&& now.spec_weekday() != target ==> 1 <= ahead <= 6
        }),
{
    let target = weekday_named(name)->Some_0;
    let today = now.spec_weekday();
    let ahead = days_ahead(today, now.spec_hour(), target);
    let day = now.day();
    let secs = next_morning(target, now);
    lemma_day_begins_with_letter(name);
    assert(today.index() == (day + 3) % 7);
    assert(0 <= ahead <= 7);
    assert(secs == (day + ahead) * 86400 + 32400);
    assert(secs / 86400 == day + ahead);
    assert(secs % 86400 == 32400);
    assert((day + ahead + 3) % 7 == target.index());
    assert(now.secs == day * 86400 + now.second_of_day());
    assert(0 <= now.second_of_day() < 86400);
    if ahead == 0 {
        assert(now.spec_hour() < 9);
        assert(now.second_of_day() < 9 * 3600);
    }
}

/// Whether `format` is one of the four forms a date and time is read in.
pub open spec fn is_accepted_form(format: Seq<char>) -> bool {
    ||| format == "%Y-%m-%d %H:%M:%S"@
    ||| format == "%Y-%m-%d %H:%M"@
    ||| format == "%Y-%m-%dT%H:%M:%S"@
    ||| format == "%Y-%m-%dT%H:%M"@
}

/// A date and time is accepted in four forms and in no other.
///
/// An expression is read as a date and time exactly where one of the four
/// forms fits it. Where the expression neither begins with `+` nor names a
/// day, it names that date and time if it lies after `now`, is refused as
/// past if it does not, and is not recognised where no form fits.
pub proof fn law_absolute_forms(s: Seq<char>, now: Timestamp)
    ensures
        absolute_time(s) is Ok <==> exists|format: Seq<char>|
            is_accepted_form(format) && (#[trigger] naive_datetime_parsed(s, format)) is Some,
        absolute_time(s) is Err ==> absolute_time(s) == Err::<Timestamp, ParseError>(
            ParseError::BadDateTimeFormat,
        ),
        !(s.len() > 0 && s[0] == '+') && weekday_named(s) is None ==> time_spec(s, now) == (
        match absolute_time(s) {
            Ok(time) => if time.secs > now.secs {
                Ok(time)
            } else {
                Err(ParseError::InPast)
            },
            Err(_) => Err(ParseError::Unrecognized),
        }),
{
    if absolute_time(s) is Ok {
        if naive_datetime_parsed(s, "%Y-%m-%d %H:%M:%S"@) is Some {
            assert(is_accepted_form("%Y-%m-%d %H:%M:%S"@));
        } else if naive_datetime_parsed(s, "%Y-%m-%d %H:%M"@) is Some {
            assert(is_accepted_form("%Y-%m-%d %H:%M"@));
        } else if naive_datetime_parsed(s, "%Y-%m-%dT%H:%M:%S"@) is Some {
            assert(is_accepted_form("%Y-%m-%dT%H:%M:%S"@));
        } else {
            assert(naive_datetime_parsed(s, "%Y-%m-%dT%H:%M"@) is Some);
            assert(is_accepted_form("%Y-%m-%dT%H:%M"@));
        }
    }
}

} // verus!
