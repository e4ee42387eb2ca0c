use vstd::prelude::*;

verus! {

/// A calendar date held as plain year, month and day values.
#[derive(Debug, Clone, Copy, PartialEq, Eq, Structural)]
pub struct Date {
    pub year: i32,
    pub month: u8,
    pub day: u8,
}

pub open spec fn spec_is_leap_year(year: int) -> bool {
    year % 4 == 0 && (year % 100 != 0 || year % 400 == 0)
}

pub open spec fn spec_days_in_month(year: int, month: int) -> int {
    if month == 2 {
        if spec_is_leap_year(year) {
            29
        } else {
            28
        }
    } else if month == 4 || month == 6 || month == 9 || month == 11 {
        30
    } else {
        31
    }
}

/// A well-formed date: a real day of the proleptic Gregorian calendar,
/// with non-negative year.
pub open spec fn valid_date(d: Date) -> bool {
    &&& 0 <= d.year
    &&& 1 <= d.month <= 12
    &&& 1 <= d.day <= spec_days_in_month(d.year as int, d.month as int)
}

/// The anchor date advanced by `k` calendar months, keeping the day of
/// month and clamping to the last day when the target month is shorter.
pub open spec fn spec_add_months(d: Date, k: int) -> Date {
    let m0 = d.month - 1 + k;
    let year = d.year + m0 / 12;
    let month = m0 % 12 + 1;
    let day = if d.day <= spec_days_in_month(year, month) {
        d.day as int
    } else {
        spec_days_in_month(year, month)
    };
    Date { year: year as i32, month: month as u8, day: day as u8 }
}

pub fn is_leap_year(year: i32) -> (r: bool)
    requires
        year >= 0,
    ensures
        r == spec_is_leap_year(year as int),
{
    year % 4 == 0 && (year % 100 != 0 || year % 400 == 0)
}

pub fn days_in_month(year: i32, month: u8) -> (r: u8)
    requires
        year >= 0,
        1 <= month <= 12,
    ensures
        r == spec_days_in_month(year as int, month as int),
{
    if month == 2 {
        if is_leap_year(year) {
            29
        } else {
            28
        }
    } else if month == 4 || month == 6 || month == 9 || month == 11 {
        30
    } else {
        31
    }
}

pub fn add_months(d: Date, k: u32) -> (r: Date)
    requires
        valid_date(d),
        d.year <= 1_000_000,
        k <= 1_000_000,
    ensures
        r == spec_add_months(d, k as int),
        valid_date(r),
{
    let m0: u32 = (d.month as u32) - 1 + k;
    let year: i32 = d.year + (m0 / 12) as i32;
    let month: u8 = (m0 % 12 + 1) as u8;
    let dim: u8 = days_in_month(year, month);
    let day: u8 = if d.day <= dim {
        d.day
    } else {
        dim
    };
    Date { year, month, day }
}

} // verus!
