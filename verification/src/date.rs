//! Calendar dates of the proleptic Gregorian calendar, for the detail view's
//! day navigation.
use vstd::prelude::*;

verus! {

/// One calendar date.  The library only ever works with years 0 through
/// 9999, the neighbourhood of the persistable instant window.
#[derive(Clone, Copy, Debug, PartialEq, Eq, Structural)]
pub struct CivilDate {
    pub year: i32,
    pub month: u8,
    pub day: u8,
}

/// Gregorian leap year rule.
pub open spec fn is_leap_year(y: int) -> bool {
    (y % 4 == 0 && y % 100 != 0) || y % 400 == 0
}

/// Days in a month of a year.
pub open spec fn days_in_month_of(y: int, m: int) -> int {
    if m == 2 {
        if is_leap_year(y) {
            29
        } else {
            28
        }
    } else if m == 4 || m == 6 || m == 9 || m == 11 {
        30
    } else {
        31
    }
}

/// The date names a real day of a year between 0 and 9999.
pub open spec fn valid_date(d: CivilDate) -> bool {
    &&& 0 <= d.year <= 9999
    &&& 1 <= d.month <= 12
    &&& 1 <= d.day <= days_in_month_of(d.year as int, d.month as int)
}

/// The calendar day after `d`.
pub open spec fn next_date_of(d: CivilDate) -> CivilDate {
    if d.day < days_in_month_of(d.year as int, d.month as int) {
        CivilDate { day: (d.day + 1) as u8, ..d }
    } else if d.month < 12 {
        CivilDate { month: (d.month + 1) as u8, day: 1, ..d }
    } else {
        CivilDate { year: (d.year + 1) as i32, month: 1, day: 1 }
    }
}

/// The calendar day before `d`.
pub open spec fn prev_date_of(d: CivilDate) -> CivilDate {
    if d.day > 1 {
        CivilDate { day: (d.day - 1) as u8, ..d }
    } else if d.month > 1 {
        CivilDate {
            month: (d.month - 1) as u8,
            day: days_in_month_of(d.year as int, d.month - 1) as u8,
            ..d
        }
    } else {
        CivilDate { year: (d.year - 1) as i32, month: 12, day: 31 }
    }
}

/// Days in the given month.
pub fn days_in_month(year: i32, month: u8) -> (n: u8)
    requires
        0 <= year,
        1 <= month <= 12,
    ensures
        n == days_in_month_of(year as int, month as int),
{
    if month == 2 {
        let y = year as u32;
        if (y % 4 == 0 && y % 100 != 0) || y % 400 == 0 {
            29
        } else {
            28
        }
    } else if month == 4 || month == 6 || month == 9 || month == 11 {
        30
    } else {
        31
    }
}

/// The calendar day after `d`, which must not be the last supported day.
pub fn next_date(d: CivilDate) -> (r: CivilDate)
    requires
        valid_date(d),
        !(d.year == 9999 && d.month == 12 && d.day == 31),
    ensures
        valid_date(r),
        r == next_date_of(d),
{
    let dim = days_in_month(d.year, d.month);
    if d.day < dim {
        CivilDate { day: d.day + 1, ..d }
    } else if d.month < 12 {
        CivilDate { month: d.month + 1, day: 1, ..d }
    } else {
        CivilDate { year: d.year + 1, month: 1, day: 1 }
    }
}

/// The calendar day before `d`, which must not be the first supported day.
pub fn prev_date(d: CivilDate) -> (r: CivilDate)
    requires
        valid_date(d),
        !(d.year == 0 && d.month == 1 && d.day == 1),
    ensures
        valid_date(r),
        r == prev_date_of(d),
{
    if d.day > 1 {
        CivilDate { day: d.day - 1, ..d }
    } else if d.month > 1 {
        let dim = days_in_month(d.year, d.month - 1);
        CivilDate { month: d.month - 1, day: dim, ..d }
    } else {
        CivilDate { year: d.year - 1, month: 12, day: 31 }
    }
}

} // verus!
