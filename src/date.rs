//! Proleptic Gregorian date arithmetic: leap years, month lengths and weekdays.

use vstd::prelude::*;

verus! {

/// A calendar day (year, month, day) with no time component.
#[derive(Clone, Copy, Debug, PartialEq, Eq, Structural)]
pub struct CalendarDate {
    pub year: i32,
    pub month: u32,
    pub day: u32,
}

/// Leap years are divisible by 4, except centuries not divisible by 400.
pub open spec fn leap_year(y: int) -> bool {
    (y % 4 == 0 && y % 100 != 0) || y % 400 == 0
}

/// Number of days of month `m` (1-based) in year `y`.
pub open spec fn days_in_month(y: int, m: int) -> int {
    if m == 2 {
        if leap_year(y) { 29 } else { 28 }
    } else if m == 4 || m == 6 || m == 9 || m == 11 {
        30
    } else {
        31
    }
}

pub open spec fn days_in_year(y: int) -> int {
    if leap_year(y) { 366 } else { 365 }
}

/// Days from 1 January of year 1 to 1 January of year `y`.
pub open spec fn days_before_year(y: int) -> int
    decreases y,
{
    if y <= 1 { 0 } else { days_before_year(y - 1) + days_in_year(y - 1) }
}

/// Days from 1 January of year `y` to the first day of month `m`.
pub open spec fn days_before_month(y: int, m: int) -> int
    decreases m,
{
    if m <= 1 { 0 } else { days_before_month(y, m - 1) + days_in_month(y, m - 1) }
}

/// Days elapsed since 1 January of year 1.
pub open spec fn day_number(y: int, m: int, d: int) -> int {
    days_before_year(y) + days_before_month(y, m) + d - 1
}

/// Weekday index, Sunday = 0 through Saturday = 6 (1 January of year 1 was a Monday).
pub open spec fn weekday(y: int, m: int, d: int) -> int {
    (day_number(y, m, d) + 1) % 7
}

impl CalendarDate {
    /// The date names an existing day.
    pub open spec fn wf(self) -> bool {
        &&& 1 <= self.month <= 12
        &&& 1 <= self.day <= days_in_month(self.year as int, self.month as int)
    }

    /// The date with the given fields, if it names an existing day.
    pub fn from_ymd(year: i32, month: u32, day: u32) -> (r: Option<CalendarDate>)
        ensures
            r is Some <==> (CalendarDate { year, month, day }).wf(),
            r matches Some(d) ==> d == (CalendarDate { year, month, day }),
    {
        if 1 <= month && month <= 12 && 1 <= day && day <= days_in(year, month) {
            Some(CalendarDate { year, month, day })
        } else {
            None
        }
    }
}

pub fn is_leap_year(year: i32) -> (r: bool)
    ensures
        r == leap_year(year as int),
{
    // Shifting by a multiple of 400 keeps the rule and makes the year non-negative.
    let y: u64 = (year as i64 + 2_147_484_000) as u64;
    let r4 = y % 4;
    let r100 = y % 100;
    let r400 = y % 400;
    assert(y as int % 4 == year as int % 4);
    assert(y as int % 100 == year as int % 100);
    assert(y as int % 400 == year as int % 400);
    (r4 == 0 && r100 != 0) || r400 == 0
}

/// Number of days of `month` in `year`.
fn days_in(year: i32, month: u32) -> (r: u32)
    requires
        1 <= month <= 12,
    ensures
        r == days_in_month(year as int, month as int),
{
    if month == 2 {
        if is_leap_year(year) { 29 } else { 28 }
    } else if month == 4 || month == 6 || month == 9 || month == 11 {
        30
    } else {
        31
    }
}

/// The last day of `month` in `year`.
pub fn last_day_in_month(year: i32, month: u32) -> (r: CalendarDate)
    requires
        1 <= month <= 12,
    ensures
        r == (CalendarDate { year, month, day: days_in_month(year as int, month as int) as u32 }),
        28 <= r.day <= 31,
        r.wf(),
{
    CalendarDate { year, month, day: days_in(year, month) }
}

/// Closed form of the days before a year: 365 per year plus the leap days.
pub proof fn lemma_days_before_year(y: int)
    requires
        y >= 1,
    ensures
        days_before_year(y) == 365 * (y - 1) + (y - 1) / 4 - (y - 1) / 100 + (y - 1) / 400,
    decreases y,
{
    if y > 1 {
        lemma_days_before_year(y - 1);
        let n = y - 1;
        assert(n / 4 - (n - 1) / 4 == if n % 4 == 0 { 1int } else { 0int });
        assert(n / 100 - (n - 1) / 100 == if n % 100 == 0 { 1int } else { 0int });
        assert(n / 400 - (n - 1) / 400 == if n % 400 == 0 { 1int } else { 0int });
    }
}

/// Days before each month in a common year, plus one from March on in a leap year.
pub proof fn lemma_days_before_month(y: int, m: int)
    requires
        1 <= m <= 12,
    ensures
        days_before_month(y, m) == (if m == 1 { 0int } else if m == 2 { 31int } else if m == 3 { 59int }
            else if m == 4 { 90int } else if m == 5 { 120int } else if m == 6 { 151int }
            else if m == 7 { 181int } else if m == 8 { 212int } else if m == 9 { 243int }
            else if m == 10 { 273int } else if m == 11 { 304int } else { 334int })
            + (if m > 2 && leap_year(y) { 1int } else { 0int }),
{
    reveal_with_fuel(days_before_month, 12);
}

/// Weekday (Sunday = 0) of the first day of `month` in `year`.
pub fn first_weekday(year: i32, month: u32) -> (r: u32)
    requires
        1 <= year <= 9999,
        1 <= month <= 12,
    ensures
        r == weekday(year as int, month as int, 1),
        r < 7,
{
    proof {
        lemma_days_before_year(year as int);
        lemma_days_before_month(year as int, month as int);
    }
    let n: u64 = (year - 1) as u64;
    let before_year: u64 = 365 * n + n / 4 - n / 100 + n / 400;
    let before_month: u64 = match month {
        1 => 0,
        2 => 31,
        3 => 59,
        4 => 90,
        5 => 120,
        6 => 151,
        7 => 181,
        8 => 212,
        9 => 243,
        10 => 273,
        11 => 304,
        _ => 334,
    };
    let extra: u64 = if month > 2 && is_leap_year(year) { 1 } else { 0 };
    ((before_year + before_month + extra + 1) % 7) as u32
}

/// Every month has 28 to 31 days, and February has 29 exactly in leap years.
pub proof fn lemma_month_length(y: int, m: int)
    requires
        1 <= m <= 12,
    ensures
        28 <= days_in_month(y, m) <= 31,
        days_in_month(y, m) == 29 <==> m == 2 && leap_year(y),
        days_in_month(y, m) == 28 <==> m == 2 && !leap_year(y),
        m == 4 || m == 6 || m == 9 || m == 11 ==> days_in_month(y, m) == 30,
        m != 2 && m != 4 && m != 6 && m != 9 && m != 11 ==> days_in_month(y, m) == 31,
{
}

} // verus!
