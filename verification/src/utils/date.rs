//! Calendar arithmetic on seconds since 1970-01-01 00:00:00 UTC, and the
//! fixed-width date column of a long listing.

use crate::utils::text::{
    chars_of, decimal, decimal_chars, pad_left, pad_right, push_left_aligned, push_right_aligned,
};
use vstd::prelude::*;

verus! {

/// A point in time, reduced to what a listing shows: the month (0 is
/// January), the day of the month (from 1), the hour and the minute.
#[derive(Clone, Copy, Debug, PartialEq, Eq, Structural)]
pub struct Tm {
    pub tm_mon: i32,
    pub tm_mday: i32,
    pub tm_hour: i32,
    pub tm_min: i32,
}

pub open spec fn is_leap(year: int) -> bool {
    (year % 4 == 0 && year % 100 != 0) || year % 400 == 0
}

pub open spec fn days_in_year(year: int) -> int {
    if is_leap(year) {
        366
    } else {
        365
    }
}

/// The length of month `month` (0 is January) of `year`.
pub open spec fn days_in_month(year: int, month: int) -> int {
    if month == 1 {
        if is_leap(year) {
            29
        } else {
            28
        }
    } else if month == 3 || month == 5 || month == 8 || month == 10 {
        30
    } else {
        31
    }
}

/// The days between 1 January 1970 and 1 January of `year`.
pub open spec fn days_before_year(year: int) -> int
    decreases year,
{
    if year <= 1970 {
        0
    } else {
        days_before_year(year - 1) + days_in_year(year - 1)
    }
}

/// The days between 1 January of `year` and the first of month `month`.
pub open spec fn days_before_month(year: int, month: int) -> int
    decreases month,
{
    if month <= 0 {
        0
    } else {
        days_before_month(year, month - 1) + days_in_month(year, month - 1)
    }
}

/// The year in which day number `days`, counted from 1 January of `year`, falls.
pub open spec fn year_from(year: int, days: int) -> int
    decreases days,
{
    if days < days_in_year(year) {
        year
    } else {
        year_from(year + 1, days - days_in_year(year))
    }
}

/// The position in its own year of day number `days`, counted from 1 January of `year`.
pub open spec fn day_of_year_from(year: int, days: int) -> int
    decreases days,
{
    if days < days_in_year(year) {
        days
    } else {
        day_of_year_from(year + 1, days - days_in_year(year))
    }
}

/// The month in which day `day` (from 1) falls, counted from the first of `month`.
pub open spec fn month_from(year: int, month: int, day: int) -> int
    decreases 12 - month,
{
    if month >= 11 || day <= days_in_month(year, month) {
        month
    } else {
        month_from(year, month + 1, day - days_in_month(year, month))
    }
}

/// The day of its own month of day `day` (from 1), counted from the first of `month`.
pub open spec fn day_of_month_from(year: int, month: int, day: int) -> int
    decreases 12 - month,
{
    if month >= 11 || day <= days_in_month(year, month) {
        day
    } else {
        day_of_month_from(year, month + 1, day - days_in_month(year, month))
    }
}

/// The calendar fields of the instant `secs` seconds after the epoch.
pub open spec fn tm_of(secs: int) -> Tm {
    let days = secs / 86400;
    let year = year_from(1970, days);
    let day = day_of_year_from(1970, days) + 1;
    Tm {
        tm_mon: month_from(year, 0, day) as i32,
        tm_mday: day_of_month_from(year, 0, day) as i32,
        tm_hour: ((secs % 86400) / 3600) as i32,
        tm_min: ((secs % 3600) / 60) as i32,
    }
}

pub open spec fn month_name(month: int) -> Seq<char> {
    if month == 0 {
        "Jan"@
    } else if month == 1 {
        "Feb"@
    } else if month == 2 {
        "Mar"@
    } else if month == 3 {
        "Apr"@
    } else if month == 4 {
        "May"@
    } else if month == 5 {
        "Jun"@
    } else if month == 6 {
        "Jul"@
    } else if month == 7 {
        "Aug"@
    } else if month == 8 {
        "Sep"@
    } else if month == 9 {
        "Oct"@
    } else if month == 10 {
        "Nov"@
    } else if month == 11 {
        "Dec"@
    } else {
        ""@
    }
}

/// The date column: month name in three columns, day of the month in two,
/// then hour and minute, each of two digits.
pub open spec fn datetime_text(secs: int) -> Seq<char> {
    let tm = tm_of(secs);
    pad_right(month_name(tm.tm_mon as int), 3) + seq![' '] + pad_left(
        decimal(tm.tm_mday as nat),
        2,
        ' ',
    ) + seq![' '] + pad_left(decimal(tm.tm_hour as nat), 2, '0') + seq![':'] + pad_left(
        decimal(tm.tm_min as nat),
        2,
        '0',
    )
}

pub fn is_leap_year(year: u64) -> (r: bool)
    ensures
        r == is_leap(year as int),
{
    (year % 4 == 0 && year % 100 != 0) || (year % 400 == 0)
}

fn month_length(year: u64, month: u64) -> (n: u64)
    ensures
        n == days_in_month(year as int, month as int),
{
    if month == 1 {
        if is_leap_year(year) {
            29
        } else {
            28
        }
    } else if month == 3 || month == 5 || month == 8 || month == 10 {
        30
    } else {
        31
    }
}

/// A day within a year falls within one of its twelve months.
pub proof fn lemma_month_in_range(year: int, month: int, day: int)
    requires
        0 <= month < 12,
        1 <= day <= days_in_year(year) - days_before_month(year, month),
    ensures
        month <= month_from(year, month, day) < 12,
        1 <= day_of_month_from(year, month, day) <= days_in_month(
            year,
            month_from(year, month, day),
        ),
        days_before_month(year, month) + day == days_before_month(
            year,
            month_from(year, month, day),
        ) + day_of_month_from(year, month, day),
    decreases 12 - month,
{
    reveal_with_fuel(days_before_month, 13);
    if month < 11 && day > days_in_month(year, month) {
        lemma_month_in_range(year, month + 1, day - days_in_month(year, month));
    }
}

/// Counting years forward from `year` lands on the year that holds the day.
pub proof fn lemma_year_in_range(year: int, days: int)
    requires
        1970 <= year,
        0 <= days,
    ensures
        year <= year_from(year, days),
        0 <= day_of_year_from(year, days) < days_in_year(year_from(year, days)),
        days_before_year(year) + days == days_before_year(year_from(year, days))
            + day_of_year_from(year, days),
    decreases days,
{
    if days >= days_in_year(year) {
        lemma_year_in_range(year + 1, days - days_in_year(year));
    }
}

/// The fields of `tm_of(secs)` are those of a date of the Gregorian calendar:
/// there is a year from 1970 on in which the month and the day exist, and
/// the days from the epoch to that date are `secs / 86400`. Hour and minute
/// are those of the time of day.
pub proof fn lemma_tm_is_calendar_date(secs: int)
    requires
        0 <= secs <= u64::MAX,
    ensures
        ({
            let tm = tm_of(secs);
            let year = year_from(1970, secs / 86400);
            &&& 1970 <= year
            &&& 0 <= tm.tm_mon < 12
            &&& 1 <= tm.tm_mday <= days_in_month(year, tm.tm_mon as int)
            &&& 0 <= tm.tm_hour < 24
            &&& 0 <= tm.tm_min < 60
            &&& secs / 86400 == days_before_year(year) + days_before_month(year, tm.tm_mon as int)
                + tm.tm_mday - 1
            &&& secs == (secs / 86400) * 86400 + tm.tm_hour * 3600 + tm.tm_min * 60 + secs % 60
        }),
{
    let days = secs / 86400;
    lemma_year_in_range(1970, days);
    let year = year_from(1970, days);
    let day = day_of_year_from(1970, days) + 1;
    lemma_month_in_range(year, 0, day);
}

proof fn lemma_year_found(start: int, year: int, rest: int)
    requires
        1970 <= start <= year,
        days_before_year(year) - days_before_year(start) <= rest < days_before_year(year)
            - days_before_year(start) + days_in_year(year),
    ensures
        year_from(start, rest) == year,
        day_of_year_from(start, rest) == rest - (days_before_year(year) - days_before_year(start)),
    decreases year - start,
{
    if start < year {
        lemma_year_found(start + 1, year, rest - days_in_year(start));
    }
}

proof fn lemma_month_found(year: int, start: int, month: int, rest: int, day: int)
    requires
        0 <= start <= month < 12,
        1 <= day <= days_in_month(year, month),
        rest == days_before_month(year, month) - days_before_month(year, start) + day,
    ensures
        month_from(year, start, rest) == month,
        day_of_month_from(year, start, rest) == day,
    decreases month - start,
{
    if start < month {
        lemma_month_found(year, start + 1, month, rest - days_in_month(year, start), day);
    }
}

/// No other date of the calendar falls on the day of `tm_of(secs)`: a year
/// from 1970 on, a month and a day of that month that lie `secs / 86400`
/// days behind the epoch are the year, the month and the day that `tm_of`
/// gives.
pub proof fn lemma_calendar_date_is_unique(secs: int, year: int, month: int, day: int)
    requires
        0 <= secs <= u64::MAX,
        1970 <= year,
        0 <= month < 12,
        1 <= day <= days_in_month(year, month),
        secs / 86400 == days_before_year(year) + days_before_month(year, month) + day - 1,
    ensures
        year_from(1970, secs / 86400) == year,
        tm_of(secs).tm_mon == month,
        tm_of(secs).tm_mday == day,
{
    reveal_with_fuel(days_before_month, 13);
    let days = secs / 86400;
    lemma_year_found(1970, year, days);
    lemma_month_found(year, 0, month, days_before_month(year, month) + day, day);
}

/// The calendar fields of the instant `secs` seconds after the epoch.
pub fn secs_to_tm(secs: u64) -> (tm: Tm)
    ensures
        tm == tm_of(secs as int),
        0 <= tm.tm_mon < 12,
        1 <= tm.tm_mday <= 31,
        0 <= tm.tm_hour < 24,
        0 <= tm.tm_min < 60,
{
    let total_days: u64 = secs / 86400;
    let mut days: u64 = total_days;
    let mut year: u64 = 1970;
    loop
        invariant
            1970 <= year,
            year + days <= 1970 + total_days,
            total_days <= u64::MAX / 86400,
            year_from(1970, total_days as int) == year_from(year as int, days as int),
            day_of_year_from(1970, total_days as int) == day_of_year_from(
                year as int,
                days as int,
            ),
        ensures
            year == year_from(1970, total_days as int),
            days == day_of_year_from(1970, total_days as int),
            days < 366,
        decreases days,
    {
        let length: u64 = if is_leap_year(year) {
            366
        } else {
            365
        };
        if days < length {
            break ;
        }
        days -= length;
        year += 1;
    }
    proof {
        lemma_year_in_range(1970, total_days as int);
        lemma_month_in_range(year as int, 0, days + 1);
    }
    let first_day: u64 = days + 1;
    let mut month: u64 = 0;
    let mut day: u64 = first_day;
    while month < 11 && day > month_length(year, month)
        invariant
            0 <= month <= 11,
            1 <= day <= first_day <= 366,
            month_from(year as int, 0, first_day as int) == month_from(
                year as int,
                month as int,
                day as int,
            ),
            day_of_month_from(year as int, 0, first_day as int) == day_of_month_from(
                year as int,
                month as int,
                day as int,
            ),
        decreases 11 - month,
    {
        day -= month_length(year, month);
        month += 1;
    }
    let time_of_day: u64 = secs % 86400;
    let hour: u64 = (time_of_day / 3600) % 24;
    let min: u64 = (time_of_day % 3600) / 60;
    assert(hour == (secs as int % 86400) / 3600);
    Tm { tm_mon: month as i32, tm_mday: day as i32, tm_hour: hour as i32, tm_min: min as i32 }
}

/// The English three-letter name of month `month` (0 is January); empty for
/// a number that is no month.
pub fn month_to_str(month: i32) -> (name: &'static str)
    ensures
        name@ == month_name(month as int),
{
    match month {
        0 => "Jan",
        1 => "Feb",
        2 => "Mar",
        3 => "Apr",
        4 => "May",
        5 => "Jun",
        6 => "Jul",
        7 => "Aug",
        8 => "Sep",
        9 => "Oct",
        10 => "Nov",
        11 => "Dec",
        _ => "",
    }
}

/// Appends the date column for the instant `secs` seconds after the epoch.
pub fn push_datetime(out: &mut String, secs: u64)
    ensures
        final(out)@ == old(out)@ + datetime_text(secs as int),
{
    let tm = secs_to_tm(secs);
    let name = chars_of(month_to_str(tm.tm_mon));
    push_left_aligned(out, &name, 3);
    out.push(' ');
    let mday = decimal_chars(tm.tm_mday as u128);
    push_right_aligned(out, &mday, 2, ' ');
    out.push(' ');
    let hour = decimal_chars(tm.tm_hour as u128);
    push_right_aligned(out, &hour, 2, '0');
    out.push(':');
    let min = decimal_chars(tm.tm_min as u128);
    push_right_aligned(out, &min, 2, '0');
}

/// The date column of a long listing for the instant `secs` seconds after
/// the epoch, such as `Jan  1 00:00`.
pub fn format_datetime(secs: u64) -> (text: String)
    ensures
        text@ == datetime_text(secs as int),
{
    let mut text = String::new();
    push_datetime(&mut text, secs);
    text
}

} // verus!
