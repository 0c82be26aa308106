use vstd::prelude::*;

use chrono::Datelike;

use crate::header::Header;

verus! {

/// Whether `y` is a leap year of the proleptic Gregorian calendar.
pub open spec fn is_leap_year(y: int) -> bool {
    (y % 4 == 0 && y % 100 != 0) || y % 400 == 0
}

/// How many days year `y` has.
pub open spec fn days_in_year(y: int) -> int {
    if is_leap_year(y) {
        366
    } else {
        365
    }
}

/// How many days month `m` (1 through 12) of year `y` has.
pub open spec fn days_in_month(y: int, m: int) -> int {
    if m == 2 {
        if is_leap_year(y) {
            29
        } else {
            28
        }
    } else if m == 4 || m == 6 || m == 9 || m == 11 {
        30
    } else {
        31
    }
}

/// How many days of year `y` pass before month `m` begins.
pub open spec fn days_before_month(y: int, m: int) -> int
    decreases m,
{
    if m <= 1 {
        0
    } else {
        days_before_month(y, m - 1) + days_in_month(y, m - 1)
    }
}

/// Relies on `chrono::NaiveDate::from_yo_opt`, `month` and `day`: converts
/// a year and a day-of-year to the calendar month and day-of-month; the
/// conversion exists exactly when the ordinal lies within the year, and
/// the month and day returned are the ones whose cumulative day count
/// reproduces the ordinal.
#[verifier::external_body]
fn ymd_from_year_day(year: u16, day: u16) -> (r: Option<(u8, u8)>)
    ensures
        r is Some <==> 1 <= day <= days_in_year(year as int),
        r matches Some(md) ==> 1 <= md.0 <= 12 && 1 <= md.1 <= days_in_month(
            year as int,
            md.0 as int,
        ) && days_before_month(year as int, md.0 as int) + md.1 == day,
{
    let date = chrono::NaiveDate::from_yo_opt(year as i32, day as u32)?;
    Some((date.month() as u8, date.day() as u8))
}

impl Header {
    /// The file creation date as (year, month, day), when the header's
    /// year and day-of-year fields name a real calendar day.
    pub fn file_creation_date(&self) -> (r: Option<(u16, u8, u8)>)
        ensures
            r is Some <==> 1 <= self.creation_day <= days_in_year(self.creation_year as int),
            r matches Some(ymd) ==> ymd.0 == self.creation_year && 1 <= ymd.1 <= 12 && 1 <= ymd.2
                <= days_in_month(self.creation_year as int, ymd.1 as int) && days_before_month(
                self.creation_year as int,
                ymd.1 as int,
            ) + ymd.2 == self.creation_day,
    {
        match ymd_from_year_day(self.creation_year, self.creation_day) {
            Some(md) => Some((self.creation_year, md.0, md.1)),
            None => None,
        }
    }
}

} // verus!
