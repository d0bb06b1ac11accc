//! Arithmetic of the proleptic Gregorian calendar: leap years, the length
//! of a month, the weekday of its first day, and the months before and
//! after a month.

use vstd::prelude::*;

verus! {

/// Whether a year of the proleptic Gregorian calendar is a leap year.
pub open spec fn is_leap_year(year: int) -> bool {
    year % 4 == 0 && (year % 100 != 0 || year % 400 == 0)
}

/// The number of days of a month in the proleptic Gregorian calendar.
pub open spec fn days_in_month(year: int, month: int) -> int {
    if month == 2 {
        if is_leap_year(year) {
            29
        } else {
            28
        }
    } else if month == 4 || month == 6 || month == 9 || month == 11 {
        30
    } else {
        31
    }
}

/// The month after: `(month, year)`. The year goes up exactly when the new
/// month's number is not above the old one.
pub open spec fn next_of(month: int, year: int) -> (int, int) {
    let next = month % 12 + 1;
    (
        next,
        if next > month {
            year
        } else {
            year + 1
        },
    )
}

/// The month before: `(month, year)`. The year goes down exactly when the
/// new month's number is not below the old one.
pub open spec fn prev_of(month: int, year: int) -> (int, int) {
    let prev = if month == 1 {
        12
    } else {
        month - 1
    };
    (
        prev,
        if prev < month {
            year
        } else {
            year - 1
        },
    )
}

/// Going to the next month and back, or to the month before and forth,
/// leads to the month one started from, across the turn of the year too.
pub proof fn lemma_prev_next_round_trip(month: int, year: int)
    requires
        1 <= month <= 12,
    ensures
        prev_of(next_of(month, year).0, next_of(month, year).1) == (month, year),
        next_of(prev_of(month, year).0, prev_of(month, year).1) == (month, year),
{
}

/// The number of days from the first day of year 1 to the first day of
/// `year`; it is negative for a year before year 1.
pub open spec fn days_before_year(year: int) -> int {
    let before = year - 1;
    365 * before + before / 4 - before / 100 + before / 400
}

/// The number of days from the first day of `year` to the first day of a month.
pub open spec fn days_before_month(year: int, month: int) -> int
    decreases month,
{
    if month <= 1 {
        0
    } else {
        days_before_month(year, month - 1) + days_in_month(year, month - 1)
    }
}

/// The weekday of the first day of a month in the proleptic Gregorian
/// calendar, as its ISO number: 1 for Monday up to 7 for Sunday. The first
/// day of year 1 is a Monday.
pub open spec fn weekday_of_first(year: int, month: int) -> int {
    (days_before_year(year) + days_before_month(year, month)) % 7 + 1
}

/// The number of years by which the arithmetic on years is shifted: a
/// multiple of 400, after which weekdays and leap years repeat.
pub const YEAR_SHIFT: u64 = 2147484000;

/// The days before a month are the same in two years that are both leap
/// years or both not.
pub proof fn lemma_days_before_month_by_leap(year: int, other: int, month: int)
    requires
        is_leap_year(year) == is_leap_year(other),
    ensures
        days_before_month(year, month) == days_before_month(other, month),
    decreases month,
{
    if month > 1 {
        lemma_days_before_month_by_leap(year, other, month - 1);
    }
}

/// Weekdays and leap years repeat after the shift of years.
pub proof fn lemma_year_shift(year: int, month: int)
    ensures
        is_leap_year(year + YEAR_SHIFT) == is_leap_year(year),
        weekday_of_first(year + YEAR_SHIFT, month) == weekday_of_first(year, month),
{
    let shifted = year + YEAR_SHIFT;
    assert(is_leap_year(shifted) == is_leap_year(year));
    lemma_days_before_month_by_leap(shifted, year, month);
    let before = year - 1;
    assert((before + 2147484000) / 4 == before / 4 + 536871000);
    assert((before + 2147484000) / 100 == before / 100 + 21474840);
    assert((before + 2147484000) / 400 == before / 400 + 5368710);
    assert(days_before_year(shifted) == days_before_year(year) + 7 * 112050346410);
}

/// The days before each month of a year that is no leap year, and of a leap year.
pub proof fn lemma_days_before_months(year: int)
    ensures
        days_before_month(year, 1) == 0,
        days_before_month(year, 2) == 31,
        days_before_month(year, 3) == 59 + leap_day(year),
        days_before_month(year, 4) == 90 + leap_day(year),
        days_before_month(year, 5) == 120 + leap_day(year),
        days_before_month(year, 6) == 151 + leap_day(year),
        days_before_month(year, 7) == 181 + leap_day(year),
        days_before_month(year, 8) == 212 + leap_day(year),
        days_before_month(year, 9) == 243 + leap_day(year),
        days_before_month(year, 10) == 273 + leap_day(year),
        days_before_month(year, 11) == 304 + leap_day(year),
        days_before_month(year, 12) == 334 + leap_day(year),
{
    reveal_with_fuel(days_before_month, 13);
}

/// The day that a leap year has more than another: 1 in a leap year, else 0.
pub open spec fn leap_day(year: int) -> int {
    if is_leap_year(year) {
        1
    } else {
        0
    }
}

/// Whether a year is a leap year.
pub fn leap_year(year: i32) -> (leap: bool)
    ensures
        leap == is_leap_year(year as int),
{
    let shifted: u64 = (year as i64 + YEAR_SHIFT as i64) as u64;
    proof {
        lemma_year_shift(year as int, 1);
    }
    shifted % 4 == 0 && (shifted % 100 != 0 || shifted % 400 == 0)
}

/// The number of days of a month.
pub fn length_of_month(year: i32, month: u32) -> (days: u32)
    ensures
        days == days_in_month(year as int, month as int),
{
    if month == 2 {
        if leap_year(year) {
            29
        } else {
            28
        }
    } else if month == 4 || month == 6 || month == 9 || month == 11 {
        30
    } else {
        31
    }
}

/// The ISO number of the weekday of the first day of a month: 1 for
/// Monday up to 7 for Sunday.
pub fn weekday_of_first_day(year: i32, month: u32) -> (number: u32)
    requires
        1 <= month <= 12,
    ensures
        number == weekday_of_first(year as int, month as int),
        1 <= number <= 7,
{
    let shifted: u64 = (year as i64 + YEAR_SHIFT as i64) as u64;
    let before = shifted - 1;
    let years = 365 * before + before / 4 - before / 100 + before / 400;
    let leap: u64 = if leap_year(year) && month > 2 {
        1
    } else {
        0
    };
    let months: u64 = if month == 1 {
        0
    } else if month == 2 {
        31
    } else if month == 3 {
        59
    } else if month == 4 {
        90
    } else if month == 5 {
        120
    } else if month == 6 {
        151
    } else if month == 7 {
        181
    } else if month == 8 {
        212
    } else if month == 9 {
        243
    } else if month == 10 {
        273
    } else if month == 11 {
        304
    } else {
        334
    };
    proof {
        lemma_year_shift(year as int, month as int);
        lemma_days_before_months(shifted as int);
        assert(years == days_before_year(shifted as int));
        assert(months + leap == days_before_month(shifted as int, month as int));
    }
    ((years + months + leap) % 7 + 1) as u32
}

/// The month after `(month, year)`.
pub fn following(month: u32, year: i32) -> (next: (u32, i32))
    requires
        year < i32::MAX,
    ensures
        (next.0 as int, next.1 as int) == next_of(month as int, year as int),
{
    let next_month = (month % 12) + 1;
    let next_year = if next_month > month {
        year
    } else {
        year + 1
    };
    (next_month, next_year)
}

/// The month before `(month, year)`.
pub fn preceding(month: u32, year: i32) -> (prev: (u32, i32))
    requires
        month >= 1,
        year > i32::MIN,
    ensures
        (prev.0 as int, prev.1 as int) == prev_of(month as int, year as int),
{
    let prev_month = if month == 1 {
        12
    } else {
        month - 1
    };
    let prev_year = if prev_month < month {
        year
    } else {
        year - 1
    };
    (prev_month, prev_year)
}

} // verus!
