//! Calendar and clock readings as plain numbers, by way of `chrono`.

use vstd::prelude::*;

verus! {

/// One instant: milliseconds since 1970 in UTC, and the local date (days since
/// the last day before year 1), time of day and offset from UTC in seconds at
/// which it was observed.
#[derive(Debug, Clone, Copy, PartialEq, Eq, Structural)]
pub struct Moment {
    pub unix_ms: i64,
    pub days: i32,
    pub secs: u32,
    pub nanos: u32,
    pub offset: i32,
}

/// A local date and time of day.
#[derive(Debug, Clone, Copy, PartialEq, Eq, Structural)]
pub struct Reading {
    pub days: i32,
    pub secs: u32,
    pub nanos: u32,
}

/// The instant that an RFC 3339 text stands for.
pub uninterp spec fn rfc3339_moment(raw: Seq<char>) -> Option<Moment>;

/// `chrono::DateTime::parse_from_rfc3339`: the instant that the text stands
/// for, where it stands for one. The result is named after the text.
#[verifier::external_body]
pub(crate) fn parse_rfc3339(raw: &str) -> (r: Option<Moment>)
    ensures
        r == rfc3339_moment(raw@),
{
    let t = chrono::DateTime::parse_from_rfc3339(raw).ok()?;
    Some(Moment {
        unix_ms: t.timestamp_millis(),
        days: chrono::Datelike::num_days_from_ce(&t.date_naive()),
        secs: chrono::Timelike::num_seconds_from_midnight(&t.time()),
        nanos: chrono::Timelike::nanosecond(&t.time()),
        offset: t.offset().local_minus_utc(),
    })
}

/// The time of day that a text shows in a given format: seconds since midnight
/// and nanoseconds.
pub uninterp spec fn clock_reading(raw: Seq<char>, format: Seq<char>) -> Option<(u32, u32)>;

/// `chrono::NaiveTime::parse_from_str`: the time of day that the text shows in
/// the format, where it shows one. The result is named after both; it is a
/// second of the day, and its nanoseconds reach beyond one second only in a
/// leap second.
#[verifier::external_body]
pub(crate) fn parse_clock(raw: &str, format: &str) -> (r: Option<(u32, u32)>)
    ensures
        r == clock_reading(raw@, format@),
        r matches Some((secs, nanos)) ==> secs < 86_400 && nanos < 2_000_000_000,
{
    let t = chrono::NaiveTime::parse_from_str(raw, format).ok()?;
    Some((chrono::Timelike::num_seconds_from_midnight(&t), chrono::Timelike::nanosecond(&t)))
}

pub open spec fn leap_year(year: int) -> bool {
    year % 4 == 0 && (year % 100 != 0 || year % 400 == 0)
}

pub open spec fn month_length(year: int, month: int) -> int {
    if month == 2 {
        if leap_year(year) {
            29
        } else {
            28
        }
    } else if month == 4 || month == 6 || month == 9 || month == 11 {
        30
    } else {
        31
    }
}

/// The days of a year before a month.
pub open spec fn days_before(year: int, month: int) -> int
    decreases month,
{
    if month <= 1 {
        0
    } else {
        days_before(year, month - 1) + month_length(year, month - 1)
    }
}

/// The number of a day of the Gregorian calendar, where it has the day. The first
/// day of year 1 is day 1.
pub open spec fn civil_day(year: int, month: int, day: int) -> Option<int> {
    if 1 <= month <= 12 && 1 <= day <= month_length(year, month) {
        let past = year - 1;
        Some(365 * past + past / 4 - past / 100 + past / 400 + days_before(year, month) + day)
    } else {
        None
    }
}

/// `chrono::NaiveDate::from_ymd_opt` and `chrono::Datelike::num_days_from_ce`: the
/// number of a day of the Gregorian calendar, for the years of four digits.
#[verifier::external_body]
pub(crate) fn day_number(year: i32, month: u32, day: u32) -> (r: Option<i32>)
    requires
        1 <= year <= 9_999,
    ensures
        match r {
            Some(days) => civil_day(year as int, month as int, day as int) == Some(days as int),
            None => civil_day(year as int, month as int, day as int) is None,
        },
{
    let date = chrono::NaiveDate::from_ymd_opt(year, month, day)?;
    Some(chrono::Datelike::num_days_from_ce(&date))
}

/// The number of the first of January of the year -262143, with which the calendar
/// begins.
pub const FIRST_DAY: i32 = -95_746_129;

/// The number of the last of December of the year 262142, with which the calendar
/// ends.
pub const LAST_DAY: i32 = 95_745_399;

pub open spec fn in_calendar(days: int) -> bool {
    FIRST_DAY <= days <= LAST_DAY
}

/// The day after a day, as far as the calendar reaches.
pub open spec fn following_day(days: int) -> Option<i32> {
    if in_calendar(days) && in_calendar(days + 1) {
        Some((days + 1) as i32)
    } else {
        None
    }
}

/// `chrono::NaiveDate::succ_opt`: the next day, where the calendar has both.
#[verifier::external_body]
pub(crate) fn next_day(days: i32) -> (r: Option<i32>)
    ensures
        r == following_day(days as int),
{
    let date = chrono::NaiveDate::from_num_days_from_ce_opt(days)?.succ_opt()?;
    Some(chrono::Datelike::num_days_from_ce(&date))
}

/// The day before a day, as far as the calendar reaches.
pub open spec fn preceding_day(days: int) -> Option<i32> {
    if in_calendar(days) && in_calendar(days - 1) {
        Some((days - 1) as i32)
    } else {
        None
    }
}

/// `chrono::NaiveDate::pred_opt`: the day before, where the calendar has both.
#[verifier::external_body]
pub(crate) fn previous_day(days: i32) -> (r: Option<i32>)
    ensures
        r == preceding_day(days as int),
{
    let date = chrono::NaiveDate::from_num_days_from_ce_opt(days)?.pred_opt()?;
    Some(chrono::Datelike::num_days_from_ce(&date))
}

/// A second of the day and nanoseconds, which reach beyond one second only in the
/// last second of a minute.
pub open spec fn clock_time(secs: int, nanos: int) -> bool {
    0 <= secs < 86_400 && 0 <= nanos < 2_000_000_000 && (nanos < 1_000_000_000 || secs % 60 == 59)
}

/// The instant, in milliseconds since 1970 in UTC, of a local date and time of day
/// at a fixed offset of less than a day: the distance from the first of January
/// 1970 less the offset, where the calendar has the day both here and in UTC.
pub open spec fn local_instant(days: int, secs: int, nanos: int, offset: int) -> Option<i64> {
    let utc = secs - offset;
    if in_calendar(days) && clock_time(secs, nanos) && -86_400 < offset < 86_400 && in_calendar(
        days + utc / 86_400,
    ) {
        Some((((days - 719_163) * 86_400 + utc) * 1_000 + nanos / 1_000_000) as i64)
    } else {
        None
    }
}

/// `chrono::FixedOffset::from_local_datetime`: the instant of a local date and time
/// of day.
#[verifier::external_body]
pub(crate) fn instant_of(days: i32, secs: u32, nanos: u32, offset: i32) -> (r: Option<i64>)
    ensures
        r == local_instant(days as int, secs as int, nanos as int, offset as int),
{
    let date = chrono::NaiveDate::from_num_days_from_ce_opt(days)?;
    let time = chrono::NaiveTime::from_num_seconds_from_midnight_opt(secs, nanos)?;
    let zone = chrono::FixedOffset::east_opt(offset)?;
    let local = chrono::TimeZone::from_local_datetime(&zone, &date.and_time(time));
    local.single().map(|t| t.timestamp_millis())
}

impl Moment {
    /// The instant that an RFC 3339 text stands for.
    pub fn from_rfc3339(raw: &str) -> (r: Option<Moment>)
        ensures
            r == rfc3339_moment(raw@),
    {
        parse_rfc3339(raw)
    }
}

/// The milliseconds of an RFC 3339 text.
pub open spec fn rfc3339_ms(raw: Seq<char>) -> Option<i64> {
    match rfc3339_moment(raw) {
        Some(m) => Some(m.unix_ms),
        None => None,
    }
}

pub fn parse_rfc3339_ms(raw: &str) -> (r: Option<i64>)
    ensures
        r == rfc3339_ms(raw@),
{
    match parse_rfc3339(raw) {
        Some(m) => Some(m.unix_ms),
        None => None,
    }
}

/// A time of day in seconds and nanoseconds, where the hour, minute and second
/// are ones of a day. Nanoseconds beyond one second stand for a leap second.
pub open spec fn time_of_day(hour: int, minute: int, second: int, nanos: int) -> Option<
    (int, int),
> {
    if hour >= 24 || minute >= 60 || second >= 60 || (nanos >= 1_000_000_000 && second != 59)
        || nanos >= 2_000_000_000 {
        None
    } else {
        Some((hour * 3600 + minute * 60 + second, nanos))
    }
}

pub fn day_seconds(hour: u32, minute: u32, second: u32, nanos: u32) -> (r: Option<(u32, u32)>)
    ensures
        match r {
            Some(t) => time_of_day(hour as int, minute as int, second as int, nanos as int)
                == Some((t.0 as int, t.1 as int)),
            None => time_of_day(hour as int, minute as int, second as int, nanos as int) is None,
        },
{
    if hour >= 24 || minute >= 60 || second >= 60 || (nanos >= 1_000_000_000 && second != 59)
        || nanos >= 2_000_000_000 {
        None
    } else {
        Some((hour * 3600 + minute * 60 + second, nanos))
    }
}

/// Nanoseconds from the time of day `b` to the time of day `a`; a leap second
/// between the two counts.
pub open spec fn time_between(a: (u32, u32), b: (u32, u32)) -> int {
    let leap = if a.0 > b.0 && b.1 >= 1_000_000_000 {
        1int
    } else if a.0 < b.0 && a.1 >= 1_000_000_000 {
        -1int
    } else {
        0int
    };
    (a.0 - b.0 + leap) * 1_000_000_000 + a.1 - b.1
}

/// Twelve hours in nanoseconds.
pub const HALF_DAY_NANOS: i64 = 43_200_000_000_000;

/// Whether `a` is more than twelve hours after `b` on one day.
pub fn half_day_after(a: (u32, u32), b: (u32, u32)) -> (r: bool)
    ensures
        r == (time_between(a, b) > HALF_DAY_NANOS),
{
    let leap: i64 = if a.0 > b.0 && b.1 >= 1_000_000_000 {
        1
    } else if a.0 < b.0 && a.1 >= 1_000_000_000 {
        -1
    } else {
        0
    };
    let secs: i64 = a.0 as i64 - b.0 as i64 + leap;
    secs * 1_000_000_000 + a.1 as i64 - b.1 as i64 > HALF_DAY_NANOS
}

/// The calendar has the days of each month: thirty of April, June, September and
/// November, of February twenty-nine in leap years and twenty-eight otherwise, and
/// thirty-one of the others.
pub proof fn law_months_have_their_days(year: int, month: int, day: int)
    ensures
        civil_day(year, month, day) is Some <==> 1 <= month <= 12 && 1 <= day <= 31 && (month == 4
            || month == 6 || month == 9 || month == 11 ==> day <= 30) && (month == 2 ==> day <= 29
            && (day == 29 ==> year % 400 == 0 || (year % 4 == 0 && year % 100 != 0))),
{
}

/// Days that follow each other in the calendar have numbers that do, from the first
/// day of year 1 on, which is day 1.
pub proof fn law_days_follow_each_other(year: int, month: int, day: int)
    requires
        civil_day(year, month, day) is Some,
    ensures
        civil_day(1, 1, 1) == Some(1int),
        ({
            let n = civil_day(year, month, day)->0;
            let next = if civil_day(year, month, day + 1) is Some {
                civil_day(year, month, day + 1)
            } else if month < 12 {
                civil_day(year, month + 1, 1)
            } else {
                civil_day(year + 1, 1, 1)
            };
            next == Some(n + 1)
        }),
{
    reveal_with_fuel(days_before, 13);
}

/// A local time of day without an offset is as many milliseconds after midnight as
/// it shows, and midnight of the first of January 1970 is the beginning.
pub proof fn law_instants_begin_in_1970(secs: int, nanos: int)
    requires
        clock_time(secs, nanos),
    ensures
        civil_day(1970, 1, 1) == Some(719_163int),
        local_instant(719_163, secs, nanos, 0) == Some((secs * 1_000 + nanos / 1_000_000) as i64),
{
}

/// A day later is a day of milliseconds later, and a place further east is earlier by
/// its offset.
pub proof fn law_instants_are_shifted(days: int, secs: int, nanos: int, offset: int)
    requires
        local_instant(days, secs, nanos, 0) is Some,
        local_instant(days, secs, nanos, offset) is Some,
    ensures
        local_instant(days, secs, nanos, offset)->0 == local_instant(days, secs, nanos, 0)->0
            - offset * 1_000,
        local_instant(days + 1, secs, nanos, 0) matches Some(next) ==> next == local_instant(
            days,
            secs,
            nanos,
            0,
        )->0 + 86_400_000,
{
}

/// A time of day tells its hour, minute and second, and is one exactly where they
/// are ones of a day.
pub proof fn law_times_tell_their_parts(hour: int, minute: int, second: int, nanos: int)
    requires
        0 <= hour,
        0 <= minute,
        0 <= second,
        0 <= nanos < 1_000_000_000,
    ensures
        time_of_day(hour, minute, second, nanos) is Some <==> hour < 24 && minute < 60 && second
            < 60,
        time_of_day(hour, minute, second, nanos) matches Some((t, n)) ==> t / 3600 == hour && t
            / 60 % 60 == minute && t % 60 == second && n == nanos,
{
}

/// The time from one time of day to another is that back, with the other sign; and
/// outside leap seconds it is what the two show.
pub proof fn law_times_lie_apart(a: (u32, u32), b: (u32, u32))
    ensures
        time_between(a, b) == -time_between(b, a),
        a.1 < 1_000_000_000 && b.1 < 1_000_000_000 ==> time_between(a, b) == (a.0 - b.0)
            * 1_000_000_000 + (a.1 - b.1),
        time_between(a, a) == 0,
{
}

/// The day after a day is followed back to it.
pub proof fn law_neighbouring_days(days: i32)
    ensures
        following_day(days as int) matches Some(next) ==> next == days + 1 && preceding_day(
            next as int,
        ) == Some(days),
        preceding_day(days as int) matches Some(before) ==> before == days - 1 && following_day(
            before as int,
        ) == Some(days),
        in_calendar(days as int) && in_calendar(days + 1) ==> following_day(days as int) is Some,
        in_calendar(days as int) && in_calendar(days - 1) ==> preceding_day(days as int) is Some,
{
}

} // verus!
