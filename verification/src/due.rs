//! Due instants: a calendar date and a time of day, taken as UTC.

use vstd::prelude::*;
use chrono::{NaiveDate, NaiveDateTime, NaiveTime};
use crate::api::{CourseWork, Date, TimeOfDay};

verus! {

/// The first year a date may lie in.
pub const MIN_YEAR: i32 = -262143;

/// The last year a date may lie in.
pub const MAX_YEAR: i32 = 262142;

/// A point in time in the proleptic Gregorian calendar, as its seven parts.
/// `nano` may reach into a second beyond `second` to stand for a leap second.
pub struct CivilInstant {
    pub year: int,
    pub month: int,
    pub day: int,
    pub hour: int,
    pub minute: int,
    pub second: int,
    pub nano: int,
}

pub open spec fn is_leap_year(year: int) -> bool {
    year % 4 == 0 && (year % 100 != 0 || year % 400 == 0)
}

pub open spec fn days_in_month(year: int, month: int) -> int {
    if month == 2 {
        if is_leap_year(year) { 29 } else { 28 }
    } else if month == 4 || month == 6 || month == 9 || month == 11 {
        30
    } else {
        31
    }
}

/// Whether the day exists in the calendar and its year is in range.
pub open spec fn is_calendar_date(year: int, month: int, day: int) -> bool {
    &&& MIN_YEAR <= year <= MAX_YEAR
    &&& 1 <= month <= 12
    &&& 1 <= day <= days_in_month(year, month)
}

/// Whether the four parts name a time of day. A nanosecond count of a second
/// or more is a leap second, and exists only in the last second of a minute.
pub open spec fn is_clock_time(hour: int, minute: int, second: int, nano: int) -> bool {
    &&& 0 <= hour < 24
    &&& 0 <= minute < 60
    &&& 0 <= second < 60
    &&& 0 <= nano < 2_000_000_000
    &&& (nano >= 1_000_000_000 ==> second == 59)
}

/// Days of the year that lie before the first of `month`.
pub open spec fn days_before_month(year: int, month: int) -> int
    decreases month,
{
    if month <= 1 {
        0
    } else {
        days_before_month(year, month - 1) + days_in_month(year, month - 1)
    }
}

/// Days from the first of January of year 1 to the first of January of `year`.
pub open spec fn days_before_year(year: int) -> int {
    365 * (year - 1) + (year - 1) / 4 - (year - 1) / 100 + (year - 1) / 400
}

/// Days from the first of January 1970 to the given day.
pub open spec fn unix_days(year: int, month: int, day: int) -> int {
    days_before_year(year) + days_before_month(year, month) + (day - 1) - 719162
}

impl CivilInstant {
    pub open spec fn is_valid(self) -> bool {
        &&& is_calendar_date(self.year, self.month, self.day)
        &&& is_clock_time(self.hour, self.minute, self.second, self.nano)
    }

    /// Whether `self` lies later than `other`: the parts compared in order,
    /// the year first.
    pub open spec fn later_than(self, other: CivilInstant) -> bool {
        if self.year != other.year {
            self.year > other.year
        } else if self.month != other.month {
            self.month > other.month
        } else if self.day != other.day {
            self.day > other.day
        } else if self.hour != other.hour {
            self.hour > other.hour
        } else if self.minute != other.minute {
            self.minute > other.minute
        } else if self.second != other.second {
            self.second > other.second
        } else {
            self.nano > other.nano
        }
    }

    /// Milliseconds since the start of 1970, leap seconds not counted.
    pub open spec fn unix_millis(self) -> int {
        (unix_days(self.year, self.month, self.day) * 86_400 + self.hour * 3_600 + self.minute
            * 60 + self.second) * 1_000 + self.nano / 1_000_000
    }
}

/// The time of day that a date without one is due at: the end of the day.
pub open spec fn end_of_day() -> TimeOfDay {
    TimeOfDay { hours: Some(23i32), minutes: Some(59i32), seconds: Some(59i32), nanos: Some(0i32) }
}

/// Whether the time of day says nothing: none of its four parts is there.
pub open spec fn is_unset(time: TimeOfDay) -> bool {
    time.hours is None && time.minutes is None && time.seconds is None && time.nanos is None
}

/// The time of day that is meant: the end of the day where none is given.
pub open spec fn time_meant(time: TimeOfDay) -> TimeOfDay {
    if is_unset(time) {
        end_of_day()
    } else {
        time
    }
}

/// The instant that a date and a time of day name. A time of day that says
/// nothing stands for the end of the day. Otherwise the instant is present
/// exactly when all seven parts are, the day exists and the time is one of
/// the day.
pub open spec fn civil_instant(date: Date, time: TimeOfDay) -> Option<CivilInstant> {
    let time = time_meant(time);
    if date.year is Some && date.month is Some && date.day is Some && time.hours is Some
        && time.minutes is Some && time.seconds is Some && time.nanos is Some {
        let instant = CivilInstant {
            year: date.year->0 as int,
            month: date.month->0 as int,
            day: date.day->0 as int,
            hour: time.hours->0 as int,
            minute: time.minutes->0 as int,
            second: time.seconds->0 as int,
            nano: time.nanos->0 as int,
        };
        if instant.is_valid() {
            Some(instant)
        } else {
            None
        }
    } else {
        None
    }
}

/// When a unit of course work is due: nothing without a date, the end of the
/// day without a time or with one that says nothing.
pub open spec fn due_of(work: CourseWork) -> Option<CivilInstant> {
    match work.due_date {
        None => None,
        Some(date) => match work.due_time {
            None => civil_instant(date, end_of_day()),
            Some(time) => civil_instant(date, time),
        },
    }
}

/// A due instant in UTC. Every value names an existing day and time.
#[derive(Clone, Copy, Debug, PartialEq, Eq, Structural)]
pub struct DueDateTime {
    year: i32,
    month: u32,
    day: u32,
    hour: u32,
    minute: u32,
    second: u32,
    nano: u32,
}

impl View for DueDateTime {
    type V = CivilInstant;

    closed spec fn view(&self) -> CivilInstant {
        CivilInstant {
            year: self.year as int,
            month: self.month as int,
            day: self.day as int,
            hour: self.hour as int,
            minute: self.minute as int,
            second: self.second as int,
            nano: self.nano as int,
        }
    }
}

/// Calls `chrono::NaiveDate::from_ymd_opt` and reports whether it found the
/// day. The contract restates chrono's rule: the year within chrono's range,
/// the month 1 to 12, the day one of that month.
#[verifier::external_body]
fn calendar_date_exists(year: i32, month: u32, day: u32) -> (exists: bool)
    ensures
        exists == is_calendar_date(year as int, month as int, day as int),
{
    NaiveDate::from_ymd_opt(year, month, day).is_some()
}

/// Calls `chrono::NaiveTime::from_hms_nano_opt` and reports whether it found
/// the time. The contract restates chrono's rule, leap second included.
#[verifier::external_body]
fn clock_time_exists(hour: u32, minute: u32, second: u32, nano: u32) -> (exists: bool)
    ensures
        exists == is_clock_time(hour as int, minute as int, second as int, nano as int),
{
    NaiveTime::from_hms_nano_opt(hour, minute, second, nano).is_some()
}

/// Calls `chrono::DateTime::<Utc>::timestamp_millis` on the instant that the
/// seven parts name. The contract restates chrono's count: whole days since
/// 1970 in the proleptic Gregorian calendar, then the seconds of the day,
/// then the nanoseconds cut to milliseconds.
#[verifier::external_body]
fn utc_timestamp_millis(
    year: i32,
    month: u32,
    day: u32,
    hour: u32,
    minute: u32,
    second: u32,
    nano: u32,
) -> (millis: i64)
    requires
        is_calendar_date(year as int, month as int, day as int),
        is_clock_time(hour as int, minute as int, second as int, nano as int),
    ensures
        millis == (CivilInstant {
            year: year as int,
            month: month as int,
            day: day as int,
            hour: hour as int,
            minute: minute as int,
            second: second as int,
            nano: nano as int,
        }).unix_millis(),
{
    let date = NaiveDate::from_ymd_opt(year, month, day).unwrap();
    let time = NaiveTime::from_hms_nano_opt(hour, minute, second, nano).unwrap();
    NaiveDateTime::new(date, time).and_utc().timestamp_millis()
}

/// The value of a part that is present and not negative.
fn part(value: Option<i32>) -> (out: Option<u32>)
    ensures
        out is Some <==> (value is Some && value->0 >= 0),
        out is Some ==> out->0 == value->0,
{
    match value {
        Some(v) => if v >= 0 { Some(v as u32) } else { None },
        None => None,
    }
}

impl DueDateTime {
    #[verifier::type_invariant]
    spec fn well_formed(self) -> bool {
        self@.is_valid()
    }

    pub fn year(&self) -> (year: i32)
        ensures
            year == self@.year,
    {
        self.year
    }

    pub fn month(&self) -> (month: u32)
        ensures
            month == self@.month,
    {
        self.month
    }

    pub fn day(&self) -> (day: u32)
        ensures
            day == self@.day,
    {
        self.day
    }

    pub fn hour(&self) -> (hour: u32)
        ensures
            hour == self@.hour,
    {
        self.hour
    }

    pub fn minute(&self) -> (minute: u32)
        ensures
            minute == self@.minute,
    {
        self.minute
    }

    pub fn second(&self) -> (second: u32)
        ensures
            second == self@.second,
    {
        self.second
    }

    pub fn nanosecond(&self) -> (nano: u32)
        ensures
            nano == self@.nano,
    {
        self.nano
    }

    /// Milliseconds since the start of 1970 in UTC.
    pub fn timestamp_millis(&self) -> (millis: i64)
        ensures
            millis == self@.unix_millis(),
    {
        proof {
            use_type_invariant(self);
        }
        utc_timestamp_millis(
            self.year,
            self.month,
            self.day,
            self.hour,
            self.minute,
            self.second,
            self.nano,
        )
    }

    /// Whether `self` lies later than `other`.
    pub fn is_after(&self, other: &DueDateTime) -> (after: bool)
        ensures
            after == self@.later_than(other@),
    {
        if self.year != other.year {
            self.year > other.year
        } else if self.month != other.month {
            self.month > other.month
        } else if self.day != other.day {
            self.day > other.day
        } else if self.hour != other.hour {
            self.hour > other.hour
        } else if self.minute != other.minute {
            self.minute > other.minute
        } else if self.second != other.second {
            self.second > other.second
        } else {
            self.nano > other.nano
        }
    }
}

/// Joins a date and a time of day into a due instant.
///
/// A time of day of which no part is given means the end of the day,
/// 23:59:59. Otherwise the result is absent when a part is missing, when a
/// part other than the year is negative, when the day does not exist, or
/// when the time is not one of the day; it is never an error.
pub fn classroom_to_naivedate(classroom_date: &Date, classroom_time: &TimeOfDay) -> (due: Option<
    DueDateTime,
>)
    ensures
        due is Some <==> civil_instant(*classroom_date, *classroom_time) is Some,
        due is Some ==> due->0@ == civil_instant(*classroom_date, *classroom_time)->0,
{
    let year = match classroom_date.year {
        Some(y) => y,
        None => return None,
    };
    let month = match part(classroom_date.month) {
        Some(m) => m,
        None => return None,
    };
    let day = match part(classroom_date.day) {
        Some(d) => d,
        None => return None,
    };
    let unset = classroom_time.hours.is_none() && classroom_time.minutes.is_none()
        && classroom_time.seconds.is_none() && classroom_time.nanos.is_none();
    let time = if unset {
        TimeOfDay { hours: Some(23), minutes: Some(59), seconds: Some(59), nanos: Some(0) }
    } else {
        TimeOfDay {
            hours: classroom_time.hours,
            minutes: classroom_time.minutes,
            seconds: classroom_time.seconds,
            nanos: classroom_time.nanos,
        }
    };
    assert(time == time_meant(*classroom_time));
    let hour = match part(time.hours) {
        Some(h) => h,
        None => return None,
    };
    let minute = match part(time.minutes) {
        Some(m) => m,
        None => return None,
    };
    let second = match part(time.seconds) {
        Some(s) => s,
        None => return None,
    };
    let nano = match part(time.nanos) {
        Some(n) => n,
        None => return None,
    };
    if !calendar_date_exists(year, month, day) {
        return None;
    }
    if !clock_time_exists(hour, minute, second, nano) {
        return None;
    }
    Some(DueDateTime { year, month, day, hour, minute, second, nano })
}

/// When a unit of course work is due. Work without a date is never due; work
/// with a date and no time, or a time of which no part is given, is due at
/// 23:59:59 of that date.
pub fn due_instant(work: &CourseWork) -> (due: Option<DueDateTime>)
    ensures
        due is Some <==> due_of(*work) is Some,
        due is Some ==> due->0@ == due_of(*work)->0,
{
    match &work.due_date {
        None => None,
        Some(date) => match &work.due_time {
            None => {
                let time = TimeOfDay { hours: None, minutes: None, seconds: None, nanos: None };
                classroom_to_naivedate(date, &time)
            },
            Some(time) => classroom_to_naivedate(date, time),
        },
    }
}

/// Course work with a date and no time, or with a time of which no part is
/// given, is due at 23:59:59 of that date, if the date exists; course work
/// without a date is never due.
pub proof fn lemma_end_of_day(work: CourseWork)
    ensures
        work.due_date is None ==> due_of(work) is None,
        work.due_date is Some && (work.due_time is None || is_unset(work.due_time->0)) ==> {
            let date = work.due_date->0;
            if date.year is Some && date.month is Some && date.day is Some && is_calendar_date(
                date.year->0 as int,
                date.month->0 as int,
                date.day->0 as int,
            ) {
                due_of(work) == Some(
                    CivilInstant {
                        year: date.year->0 as int,
                        month: date.month->0 as int,
                        day: date.day->0 as int,
                        hour: 23,
                        minute: 59,
                        second: 59,
                        nano: 0,
                    },
                )
            } else {
                due_of(work) is None
            }
        },
{
}

/// A date with a part that is missing or out of range names no instant, nor
/// does a time of day of which some parts are given and others are missing
/// or out of range.
pub proof fn lemma_bad_part_is_absent(date: Date, time: TimeOfDay)
    ensures
        date.year is None || date.month is None || date.day is None ==> civil_instant(date, time)
            is None,
        !is_unset(time) && (time.hours is None || time.minutes is None || time.seconds is None
            || time.nanos is None) ==> civil_instant(date, time) is None,
        date.month is Some && !(1 <= date.month->0 <= 12) ==> civil_instant(date, time) is None,
        date.day is Some && !(1 <= date.day->0 <= 31) ==> civil_instant(date, time) is None,
        date.year is Some && !(MIN_YEAR <= date.year->0 <= MAX_YEAR) ==> civil_instant(date, time)
            is None,
        time.hours is Some && !(0 <= time.hours->0 < 24) ==> civil_instant(date, time) is None,
        time.minutes is Some && !(0 <= time.minutes->0 < 60) ==> civil_instant(date, time)
            is None,
        time.seconds is Some && !(0 <= time.seconds->0 < 60) ==> civil_instant(date, time)
            is None,
        time.nanos is Some && !(0 <= time.nanos->0 < 2_000_000_000) ==> civil_instant(date, time)
            is None,
        civil_instant(date, time) is Some ==> civil_instant(date, time)->0.is_valid(),
{
}

/// Of two instants exactly one lies later than the other, unless they are
/// the same; and lying later carries over a third instant.
pub proof fn lemma_later_than_is_a_strict_order(a: CivilInstant, b: CivilInstant, c: CivilInstant)
    ensures
        !a.later_than(a),
        a.later_than(b) ==> !b.later_than(a),
        a != b ==> a.later_than(b) || b.later_than(a),
        a.later_than(b) && b.later_than(c) ==> a.later_than(c),
{
}

/// An instant that lies later has the larger timestamp, up to the
/// millisecond that both may share. Leap seconds are left out: their
/// nanoseconds reach into the next second.
pub proof fn lemma_later_has_no_smaller_timestamp(a: CivilInstant, b: CivilInstant)
    requires
        a.is_valid(),
        b.is_valid(),
        a.nano < 1_000_000_000,
        b.nano < 1_000_000_000,
        a.later_than(b),
    ensures
        a.unix_millis() >= b.unix_millis(),
{
    lemma_days_grow(a.year, a.month, a.day, b.year, b.month, b.day);
    let da = unix_days(a.year, a.month, a.day);
    let db = unix_days(b.year, b.month, b.day);
    let sa = a.hour * 3_600 + a.minute * 60 + a.second;
    let sb = b.hour * 3_600 + b.minute * 60 + b.second;
    if a.year != b.year || a.month != b.month || a.day != b.day {
        assert(da >= db + 1);
        assert(da * 86_400 + sa >= db * 86_400 + sb + 1);
    } else if sa != sb {
        assert(sa >= sb + 1);
    } else {
        assert(a.nano / 1_000_000 >= b.nano / 1_000_000);
    }
}

/// Days before a month are as many as the months before it hold, at least
/// 28 and at most 31 each.
proof fn lemma_month_offsets(year: int, month: int)
    requires
        1 <= month <= 13,
    ensures
        28 * (month - 1) <= days_before_month(year, month) <= 31 * (month - 1),
        month == 13 ==> days_before_month(year, month) == (if is_leap_year(year) {
            366int
        } else {
            365int
        }),
    decreases month,
{
    reveal_with_fuel(days_before_month, 14);
}

/// The count of days grows with the calendar date.
proof fn lemma_days_grow(y1: int, m1: int, d1: int, y2: int, m2: int, d2: int)
    requires
        is_calendar_date(y1, m1, d1),
        is_calendar_date(y2, m2, d2),
        y1 > y2 || (y1 == y2 && (m1 > m2 || (m1 == m2 && d1 >= d2))),
    ensures
        y1 == y2 && m1 == m2 && d1 == d2 ==> unix_days(y1, m1, d1) == unix_days(y2, m2, d2),
        !(y1 == y2 && m1 == m2 && d1 == d2) ==> unix_days(y1, m1, d1) > unix_days(y2, m2, d2),
{
    if y1 > y2 {
        lemma_years_grow(y2, y1);
        lemma_month_offsets(y2, 13);
        lemma_months_grow(y2, m2, 13);
        assert(days_before_month(y2, m2) + d2 <= days_before_month(y2, 13)) by {
            lemma_months_grow(y2, m2 + 1, 13);
            reveal_with_fuel(days_before_month, 2);
        }
        lemma_month_offsets(y1, m1);
    } else if m1 > m2 {
        lemma_months_grow(y1, m2 + 1, m1);
        reveal_with_fuel(days_before_month, 2);
    }
}

/// Days before a month do not shrink with the month.
proof fn lemma_months_grow(year: int, from: int, to: int)
    requires
        1 <= from <= to <= 13,
    ensures
        days_before_month(year, from) <= days_before_month(year, to),
    decreases to - from,
{
    if from < to {
        lemma_months_grow(year, from, to - 1);
        reveal_with_fuel(days_before_month, 2);
    }
}

/// A year begins after all the days of the years before it.
proof fn lemma_years_grow(from: int, to: int)
    requires
        from < to,
    ensures
        days_before_year(from) + (if is_leap_year(from) {
            366int
        } else {
            365int
        }) <= days_before_year(to),
    decreases to - from,
{
    lemma_year_length(from);
    if from + 1 < to {
        lemma_years_grow(from + 1, to);
    }
}

/// A year is as long as its leap rule says.
proof fn lemma_year_length(year: int)
    ensures
        days_before_year(year + 1) - days_before_year(year) == (if is_leap_year(year) {
            366int
        } else {
            365int
        }),
{
    let y = year;
    assert((y / 4 - (y - 1) / 4 == 1) <==> y % 4 == 0) by {
        assert(y == 4 * (y / 4) + y % 4);
        assert(y - 1 == 4 * ((y - 1) / 4) + (y - 1) % 4);
    }
    assert(y / 4 - (y - 1) / 4 == 0 || y / 4 - (y - 1) / 4 == 1) by {
        assert(y == 4 * (y / 4) + y % 4);
        assert(y - 1 == 4 * ((y - 1) / 4) + (y - 1) % 4);
    }
    assert((y / 100 - (y - 1) / 100 == 1) <==> y % 100 == 0) by {
        assert(y == 100 * (y / 100) + y % 100);
        assert(y - 1 == 100 * ((y - 1) / 100) + (y - 1) % 100);
    }
    assert(y / 100 - (y - 1) / 100 == 0 || y / 100 - (y - 1) / 100 == 1) by {
        assert(y == 100 * (y / 100) + y % 100);
        assert(y - 1 == 100 * ((y - 1) / 100) + (y - 1) % 100);
    }
    assert((y / 400 - (y - 1) / 400 == 1) <==> y % 400 == 0) by {
        assert(y == 400 * (y / 400) + y % 400);
        assert(y - 1 == 400 * ((y - 1) / 400) + (y - 1) % 400);
    }
    assert(y / 400 - (y - 1) / 400 == 0 || y / 400 - (y - 1) / 400 == 1) by {
        assert(y == 400 * (y / 400) + y % 400);
        assert(y - 1 == 400 * ((y - 1) / 400) + (y - 1) % 400);
    }
    assert(y % 400 == 0 ==> y % 100 == 0) by {
        assert(y == 400 * (y / 400) + y % 400);
        assert(y == 100 * (y / 100) + y % 100);
    }
    assert(y % 100 == 0 ==> y % 4 == 0) by {
        assert(y == 100 * (y / 100) + y % 100);
        assert(y == 4 * (y / 4) + y % 4);
    }
}

} // verus!
