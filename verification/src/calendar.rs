//! Calendar days of instants, in UTC.

use crate::time::{in_range, moved, Duration, Timestamp};
use jiff::civil::Date;
use jiff::tz::TimeZone;
use vstd::prelude::*;

verus! {

/// Nanoseconds in a day.
pub const DAY_NANOS: i128 = 86_400_000_000_000;

/// A day of the calendar.
#[derive(Clone, Copy, Debug, PartialEq, Eq, Structural)]
pub struct CivilDate {
    pub year: i16,
    pub month: i8,
    pub day: i8,
}

/// Whether a year has a leap day.
pub open spec fn is_leap(year: int) -> bool {
    year % 4 == 0 && (year % 100 != 0 || year % 400 == 0)
}

/// Days in a month.
pub open spec fn month_days(year: int, month: int) -> int {
    if month == 2 {
        if is_leap(year) {
            29
        } else {
            28
        }
    } else if month == 4 || month == 6 || month == 9 || month == 11 {
        30
    } else {
        31
    }
}

/// Days of a year before a month.
pub open spec fn days_before_month(year: int, month: int) -> int
    decreases month,
{
    if month <= 1 {
        0
    } else {
        days_before_month(year, month - 1) + month_days(year, month - 1)
    }
}

/// Days from the first day of the year 1 to the first day of a year.
pub open spec fn days_before_year(year: int) -> int {
    let past = year - 1;
    365 * past + past / 4 - past / 100 + past / 400
}

/// Days from the first day of 1970 to a date.
pub open spec fn day_number(date: CivilDate) -> int {
    days_before_year(date.year as int) + days_before_month(date.year as int, date.month as int)
        + date.day - 1 - 719_162
}

/// Whether a date is in the calendar.
pub open spec fn valid_date(date: CivilDate) -> bool {
    &&& -9999 <= date.year <= 9999
    &&& 1 <= date.month <= 12
    &&& 1 <= date.day <= month_days(date.year as int, date.month as int)
}

/// The day number of the first date of the calendar.
pub const MIN_DAY: i128 = -4_371_587;

/// The day that an instant lies in.
pub open spec fn day_of(nanos: int) -> int {
    nanos / (DAY_NANOS as int)
}

/// Calls `jiff::Timestamp::to_zoned` with `jiff::tz::TimeZone::UTC` and reads the date off the
/// result: it is the date of the UTC day that the instant lies in.
#[verifier::external_body]
fn utc_date(at: Timestamp) -> (date: CivilDate)
    requires
        at.valid(),
    ensures
        valid_date(date),
        day_number(date) == day_of(at.nanos as int),
{
    let instant = jiff::Timestamp::from_nanosecond(at.nanos).expect("instant in range");
    let date = instant.to_zoned(TimeZone::UTC).date();
    CivilDate { year: date.year(), month: date.month(), day: date.day() }
}

/// Calls `jiff::civil::Date::to_zoned` with `jiff::tz::TimeZone::UTC` and reads the instant off
/// the result: midnight of the date, provided it is an instant in range.
#[verifier::external_body]
fn utc_midnight(date: CivilDate) -> (at: Option<Timestamp>)
    requires
        valid_date(date),
    ensures
        at == if in_range(day_number(date) * DAY_NANOS) {
            Some(Timestamp { nanos: (day_number(date) * DAY_NANOS) as i128 })
        } else {
            None
        },
{
    let date = Date::new(date.year, date.month, date.day).expect("date in calendar");
    let zoned = date.to_zoned(TimeZone::UTC).ok()?;
    Some(Timestamp { nanos: zoned.timestamp().as_nanosecond() })
}

/// Calls `jiff::civil::Date::weekday`: how many days the date lies behind the Monday of its week.
/// The first day of 1970 was a Thursday.
#[verifier::external_body]
fn days_since_monday(date: CivilDate) -> (days: i8)
    requires
        valid_date(date),
    ensures
        days == (day_number(date) + 3) % 7,
{
    let date = Date::new(date.year, date.month, date.day).expect("date in calendar");
    date.weekday().to_monday_zero_offset()
}

/// Calls `jiff::civil::Date::saturating_sub` with a span of days: the date that many days before,
/// or the first date of the calendar when there is none.
#[verifier::external_body]
fn days_before(date: CivilDate, days: i8) -> (earlier: CivilDate)
    requires
        valid_date(date),
        0 <= days,
    ensures
        valid_date(earlier),
        day_number(earlier) == if day_number(date) - days >= MIN_DAY {
            day_number(date) - days
        } else {
            MIN_DAY as int
        },
{
    let date = Date::new(date.year, date.month, date.day).expect("date in calendar");
    let earlier = date.saturating_sub(jiff::Span::new().days(days));
    CivilDate { year: earlier.year(), month: earlier.month(), day: earlier.day() }
}

// ---------------------------------------------------------------------------------------------
// The calendar
// ---------------------------------------------------------------------------------------------

proof fn year_length(year: int)
    ensures
        days_before_year(year + 1) == days_before_year(year) + 365 + if is_leap(year) {
            1int
        } else {
            0int
        },
{
    let past = year - 1;
    assert(year / 4 == past / 4 + if year % 4 == 0 { 1int } else { 0int });
    assert(year / 100 == past / 100 + if year % 100 == 0 { 1int } else { 0int });
    assert(year / 400 == past / 400 + if year % 400 == 0 { 1int } else { 0int });
    assert(year % 100 == 0 ==> year % 4 == 0);
    assert(year % 400 == 0 ==> year % 100 == 0);
}

proof fn months_fill_the_year(year: int)
    ensures
        days_before_month(year, 13) == 365 + if is_leap(year) {
            1int
        } else {
            0int
        },
{
    reveal_with_fuel(days_before_month, 13);
}

proof fn months_ascend(year: int, a: int, b: int)
    requires
        1 <= a < b <= 13,
    ensures
        days_before_month(year, a) + month_days(year, a) <= days_before_month(year, b),
    decreases b - a,
{
    if a + 1 < b {
        months_ascend(year, a, b - 1);
    }
}

proof fn years_ascend(a: int, b: int)
    requires
        a < b,
    ensures
        days_before_year(a + 1) <= days_before_year(b),
    decreases b - a,
{
    if a + 1 < b {
        years_ascend(a, b - 1);
        year_length(b - 1);
    }
}

/// Whether a date comes before another.
pub open spec fn date_before(a: CivilDate, b: CivilDate) -> bool {
    a.year < b.year || (a.year == b.year && (a.month < b.month || (a.month == b.month && a.day
        < b.day)))
}

/// Day numbers keep the order of dates.
pub proof fn day_numbers_keep_order(a: CivilDate, b: CivilDate)
    requires
        valid_date(a),
        valid_date(b),
    ensures
        date_before(a, b) <==> day_number(a) < day_number(b),
        a == b <==> day_number(a) == day_number(b),
{
    if date_before(a, b) {
        earlier_dates_count_less(a, b);
    } else if a != b {
        earlier_dates_count_less(b, a);
    }
}

proof fn earlier_dates_count_less(a: CivilDate, b: CivilDate)
    requires
        valid_date(a),
        valid_date(b),
        date_before(a, b),
    ensures
        day_number(a) < day_number(b),
{
    let y = a.year as int;
    if a.year < b.year {
        months_fill_the_year(y);
        year_length(y);
        years_ascend(y, b.year as int);
        months_ascend(y, a.month as int, 13);
        if b.month > 1 {
            months_ascend(b.year as int, 1, b.month as int);
        }
    } else if a.month < b.month {
        months_ascend(y, a.month as int, b.month as int);
    }
}

/// The date of a day.
pub open spec fn date_of(day: int) -> CivilDate {
    choose|date: CivilDate| valid_date(date) && #[trigger] day_number(date) == day
}

proof fn date_of_day(date: CivilDate)
    requires
        valid_date(date),
    ensures
        date_of(day_number(date)) == date,
{
    let found = date_of(day_number(date));
    assert(valid_date(found) && day_number(found) == day_number(date));
    day_numbers_keep_order(found, date);
}

/// The first day of a date's month.
pub open spec fn first_of_month(date: CivilDate) -> CivilDate {
    CivilDate { day: 1, ..date }
}

/// The first day of a date's year.
pub open spec fn first_of_year(date: CivilDate) -> CivilDate {
    CivilDate { month: 1, day: 1, ..date }
}

/// The first day of the month after a date's month; none at the end of the calendar.
pub open spec fn next_month(date: CivilDate) -> Option<CivilDate> {
    if date.month < 12 {
        Some(CivilDate { month: (date.month + 1) as i8, day: 1, ..date })
    } else if date.year < 9999 {
        Some(CivilDate { year: (date.year + 1) as i16, month: 1, day: 1 })
    } else {
        None
    }
}

/// The first day of the year after a date's year; none at the end of the calendar.
pub open spec fn next_year(date: CivilDate) -> Option<CivilDate> {
    if date.year < 9999 {
        Some(CivilDate { year: (date.year + 1) as i16, month: 1, day: 1 })
    } else {
        None
    }
}

// ---------------------------------------------------------------------------------------------
// Groups
// ---------------------------------------------------------------------------------------------

/// Grouping of a range of time. Weeks start on Monday at midnight, so a week that crosses a month
/// still forms one group.
#[derive(Clone, Copy, Debug, PartialEq, Eq, Structural)]
pub enum UsageGroupBy {
    Day,
    Week,
    Month,
    Year,
}

/// The first day of the group that a day lies in.
pub open spec fn first_day(day: int, group_by: UsageGroupBy) -> int {
    match group_by {
        UsageGroupBy::Day => day,
        UsageGroupBy::Week => if day - (day + 3) % 7 >= MIN_DAY {
            day - (day + 3) % 7
        } else {
            MIN_DAY as int
        },
        UsageGroupBy::Month => day_number(first_of_month(date_of(day))),
        UsageGroupBy::Year => day_number(first_of_year(date_of(day))),
    }
}

/// Midnight of a day, or `otherwise` when it is no instant in range.
pub open spec fn midnight_or(day: int, otherwise: Timestamp) -> Timestamp {
    if in_range(day * DAY_NANOS) {
        Timestamp { nanos: (day * DAY_NANOS) as i128 }
    } else {
        otherwise
    }
}

/// The start of the group that an instant lies in.
pub open spec fn start_of_group(at: Timestamp, group_by: UsageGroupBy) -> Timestamp {
    midnight_or(first_day(day_of(at.nanos as int), group_by), at)
}

/// The end of the group that starts at an instant.
pub open spec fn end_of_group(start: Timestamp, group_by: UsageGroupBy) -> Timestamp {
    match group_by {
        UsageGroupBy::Day => match moved(start.nanos as int, DAY_NANOS as int) {
            Some(end) => end,
            None => start,
        },
        UsageGroupBy::Week => match moved(start.nanos as int, 7 * DAY_NANOS) {
            Some(end) => end,
            None => start,
        },
        UsageGroupBy::Month => match next_month(date_of(day_of(start.nanos as int))) {
            Some(next) => midnight_or(day_number(next), start),
            None => start,
        },
        UsageGroupBy::Year => match next_year(date_of(day_of(start.nanos as int))) {
            Some(next) => midnight_or(day_number(next), start),
            None => start,
        },
    }
}

/// The start of the group that contains `moment`: midnight UTC of its day, of its Monday, or of
/// the first day of its month or year.
pub fn group_start(moment: Timestamp, group_by: UsageGroupBy) -> (start: Timestamp)
    requires
        moment.valid(),
    ensures
        start == start_of_group(moment, group_by),
{
    let date = utc_date(moment);
    proof {
        date_of_day(date);
    }
    let first = match group_by {
        UsageGroupBy::Day => date,
        UsageGroupBy::Week => days_before(date, days_since_monday(date)),
        UsageGroupBy::Month => CivilDate { day: 1, ..date },
        UsageGroupBy::Year => CivilDate { month: 1, day: 1, ..date },
    };
    match utc_midnight(first) {
        Some(start) => start,
        None => moment,
    }
}

/// The exclusive end of the group that starts at `start`.
pub fn group_end(start: Timestamp, group_by: UsageGroupBy) -> (end: Timestamp)
    requires
        start.valid(),
    ensures
        end == end_of_group(start, group_by),
{
    match group_by {
        UsageGroupBy::Day => match start.checked_add(Duration::from_secs(86_400)) {
            Some(end) => end,
            None => start,
        },
        UsageGroupBy::Week => match start.checked_add(Duration::from_secs(604_800)) {
            Some(end) => end,
            None => start,
        },
        UsageGroupBy::Month => {
            let date = utc_date(start);
            proof {
                date_of_day(date);
            }
            let next = if date.month < 12 {
                CivilDate { month: date.month + 1, day: 1, ..date }
            } else if date.year < 9999 {
                CivilDate { year: date.year + 1, month: 1, day: 1 }
            } else {
                return start;
            };
            match utc_midnight(next) {
                Some(end) => end,
                None => start,
            }
        },
        UsageGroupBy::Year => {
            let date = utc_date(start);
            proof {
                date_of_day(date);
            }
            if date.year == 9999 {
                return start;
            }
            let next = CivilDate { year: date.year + 1, month: 1, day: 1 };
            match utc_midnight(next) {
                Some(end) => end,
                None => start,
            }
        },
    }
}

/// The day after the last day of the group that a date lies in.
pub open spec fn following_day(date: CivilDate, group_by: UsageGroupBy) -> int {
    match group_by {
        UsageGroupBy::Day => day_number(date) + 1,
        UsageGroupBy::Week => day_number(date) - (day_number(date) + 3) % 7 + 7,
        UsageGroupBy::Month => match next_month(date) {
            Some(next) => day_number(next),
            None => day_number(date),
        },
        UsageGroupBy::Year => match next_year(date) {
            Some(next) => day_number(next),
            None => day_number(date),
        },
    }
}

/// Whether a group lies within the instants that can be written down: its first midnight and the
/// one after its last day are in range, and its week does not start before the calendar.
pub open spec fn whole_group(date: CivilDate, group_by: UsageGroupBy) -> bool {
    let day = day_number(date);
    &&& in_range(first_day(day, group_by) * DAY_NANOS)
    &&& in_range(following_day(date, group_by) * DAY_NANOS)
    &&& following_day(date, group_by) > day
    &&& group_by == UsageGroupBy::Week ==> day - (day + 3) % 7 >= MIN_DAY
}

proof fn next_month_follows(date: CivilDate)
    requires
        valid_date(date),
    ensures
        next_month(date) matches Some(next) ==> valid_date(next) && day_number(next) == day_number(
            first_of_month(date),
        ) + month_days(date.year as int, date.month as int),
{
    let y = date.year as int;
    if date.month == 12 {
        months_fill_the_year(y);
        year_length(y);
        assert(days_before_month(y, 13) == days_before_month(y, 12) + month_days(y, 12));
    }
}

proof fn next_year_follows(date: CivilDate)
    requires
        valid_date(date),
    ensures
        next_year(date) matches Some(next) ==> valid_date(next) && day_number(next) > day_number(date)
            && day_number(first_of_year(date)) <= day_number(date),
{
    let y = date.year as int;
    months_fill_the_year(y);
    year_length(y);
    months_ascend(y, date.month as int, 13);
    if date.month > 1 {
        months_ascend(y, 1, date.month as int);
    }
}

proof fn midnight_day(day: int)
    ensures
        day_of(day * DAY_NANOS) == day,
{
    assert((day * 86_400_000_000_000) / 86_400_000_000_000 == day);
}

/// Groups cover time without gaps or overlaps: an instant lies in its group, and the group ends
/// where the next one starts. `date` is the day of the instant; groups at the ends of the range of
/// instants, which are cut off, are left out.
pub proof fn groups_cover_time(at: Timestamp, date: CivilDate, group_by: UsageGroupBy)
    requires
        at.valid(),
        valid_date(date),
        day_number(date) == day_of(at.nanos as int),
        whole_group(date, group_by),
    ensures
        ({
            let start = start_of_group(at, group_by);
            let end = end_of_group(start, group_by);
            &&& start.nanos <= at.nanos < end.nanos
            &&& start_of_group(start, group_by) == start
            &&& start_of_group(end, group_by) == end
        }),
{
    let day = day_number(date);
    let first = first_day(day, group_by);
    let next = following_day(date, group_by);
    date_of_day(date);
    let start = start_of_group(at, group_by);
    assert(start.nanos == first * DAY_NANOS);
    midnight_day(first);
    midnight_day(next);
    match group_by {
        UsageGroupBy::Day => {},
        UsageGroupBy::Week => {
            assert((first + 3) % 7 == 0);
            assert((next + 3) % 7 == 0);
        },
        UsageGroupBy::Month => {
            let head = first_of_month(date);
            date_of_day(head);
            next_month_follows(date);
            next_month_follows(head);
            date_of_day(next_month(date)->0);
        },
        UsageGroupBy::Year => {
            let head = first_of_year(date);
            date_of_day(head);
            next_year_follows(date);
            date_of_day(next_year(date)->0);
        },
    }
    let end = end_of_group(start, group_by);
    assert(end.nanos == next * DAY_NANOS);
}

/// A day's group is the day, a week's begins on a Monday and has seven days.
pub proof fn days_and_weeks_are_whole(moment: Timestamp, start: Timestamp, end: Timestamp, monday: Timestamp, sunday: Timestamp)
    requires
        moment.valid(),
        call_ensures(group_start, (moment, UsageGroupBy::Day), start),
        call_ensures(group_start, (moment, UsageGroupBy::Week), monday),
        start.valid(),
        monday.valid(),
        call_ensures(group_end, (start, UsageGroupBy::Day), end),
        call_ensures(group_end, (monday, UsageGroupBy::Week), sunday),
        in_range(day_of(moment.nanos as int) * DAY_NANOS - 7 * DAY_NANOS),
        in_range(day_of(moment.nanos as int) * DAY_NANOS + 8 * DAY_NANOS),
    ensures
        start.nanos <= moment.nanos < start.nanos + DAY_NANOS,
        start.nanos as int % DAY_NANOS as int == 0,
        end.nanos == start.nanos + DAY_NANOS,
        monday.nanos <= moment.nanos < monday.nanos + 7 * DAY_NANOS,
        sunday.nanos == monday.nanos + 7 * DAY_NANOS,
        (day_of(monday.nanos as int) + 3) % 7 == 0,
{
    let day = day_of(moment.nanos as int);
    let first = day - (day + 3) % 7;
    assert(crate::time::MIN_NANOS >= (MIN_DAY - 1) * DAY_NANOS);
    assert(day - 7 >= MIN_DAY - 1);
    assert(first >= MIN_DAY) by {
        assert((day + 3) % 7 <= 6);
    }
    assert(day_of(first * DAY_NANOS) == first) by {
        assert((first * DAY_NANOS) / (DAY_NANOS as int) == first) by (nonlinear_arith)
            requires
                DAY_NANOS > 0,
        ;
    }
    assert((first + 3) % 7 == 0);
}

/// Months and years are as long as the calendar says.
pub proof fn months_and_years_are_as_long_as_they_are(year: int)
    ensures
        days_before_year(year + 1) - days_before_year(year) == if is_leap(year) {
            366int
        } else {
            365
        },
        days_before_month(year, 13) == if is_leap(year) {
            366int
        } else {
            365
        },
        is_leap(2000) && !is_leap(1900) && is_leap(2024) && !is_leap(2023),
{
    reveal_with_fuel(days_before_month, 14);
}

/// The first of January 1970 is day zero, and each later day of a month is one day later.
pub proof fn days_are_counted_from_the_epoch(date: CivilDate)
    requires
        valid_date(date),
    ensures
        day_number(CivilDate { year: 1970, month: 1, day: 1 }) == 0,
        date.day > 1 ==> day_number(date) == day_number(CivilDate { day: (date.day - 1) as i8, ..date }) + 1,
{
    reveal_with_fuel(days_before_month, 2);
}

} // verus!
