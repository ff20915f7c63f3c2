//! A timezone-naive calendar date-time, minute precision, as scraped from
//! article pages.

use vstd::prelude::*;

verus! {

/// A wall-clock date and time with no attached zone or offset.
#[derive(Clone, Copy, PartialEq, Eq, Structural, Debug, Hash)]
pub struct DateTime {
    pub year: u16,
    pub month: u8,
    pub day: u8,
    pub hour: u8,
    pub minute: u8,
}

/// A year divisible by four is a leap year, except century years not
/// divisible by four hundred.
pub open spec fn spec_is_leap_year(year: u16) -> bool {
    year % 4 == 0 && (year % 100 != 0 || year % 400 == 0)
}

pub fn is_leap_year(year: u16) -> (r: bool)
    ensures
        r == spec_is_leap_year(year),
{
    year % 4 == 0 && (year % 100 != 0 || year % 400 == 0)
}

/// How many days the given month of the given year has; 0 for an invalid
/// month number.
pub open spec fn spec_days_in_month(year: u16, month: u8) -> u8 {
    if month == 1 || month == 3 || month == 5 || month == 7 || month == 8 || month == 10
        || month == 12 {
        31
    } else if month == 4 || month == 6 || month == 9 || month == 11 {
        30
    } else if month == 2 {
        if spec_is_leap_year(year) {
            29
        } else {
            28
        }
    } else {
        0
    }
}

pub fn days_in_month(year: u16, month: u8) -> (r: u8)
    ensures
        r == spec_days_in_month(year, month),
{
    if month == 1 || month == 3 || month == 5 || month == 7 || month == 8 || month == 10
        || month == 12 {
        31
    } else if month == 4 || month == 6 || month == 9 || month == 11 {
        30
    } else if month == 2 {
        if is_leap_year(year) {
            29
        } else {
            28
        }
    } else {
        0
    }
}

impl DateTime {
    /// The date names a real calendar day and the time of day is in range.
    pub open spec fn wf(self) -> bool {
        &&& 1 <= self.month <= 12
        &&& 1 <= self.day <= spec_days_in_month(self.year, self.month)
        &&& self.hour <= 23
        &&& self.minute <= 59
    }

    pub fn is_valid(&self) -> (r: bool)
        ensures
            r == self.wf(),
    {
        1 <= self.month && self.month <= 12 && 1 <= self.day && self.day <= days_in_month(
            self.year,
            self.month,
        ) && self.hour <= 23 && self.minute <= 59
    }
}

} // verus!
