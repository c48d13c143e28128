//! Calendar dates as plain fields, with a verified validity check.

use vstd::prelude::*;

verus! {

/// A calendar date held as plain year, month and day numbers, as a database
/// `date` column stores it. Proleptic Gregorian rules decide validity.
#[derive(Clone, Copy, PartialEq, Eq, Structural, Debug)]
pub struct Date {
    pub year: i32,
    pub month: i32,
    pub day: i32,
}

/// Years divisible by four are leap years, except century years that are not
/// divisible by four hundred.
pub open spec fn spec_is_leap_year(y: int) -> bool {
    (y % 4 == 0 && y % 100 != 0) || y % 400 == 0
}

/// Number of days in a given month of a given year, for months 1 through 12.
pub open spec fn spec_days_in_month(y: int, m: int) -> int {
    if m == 2 {
        if spec_is_leap_year(y) {
            29
        } else {
            28
        }
    } else if m == 4 || m == 6 || m == 9 || m == 11 {
        30
    } else {
        31
    }
}

impl Date {
    /// A date is valid when its year lies in the supported range and its day
    /// exists in its month.
    pub open spec fn spec_valid(self) -> bool {
        &&& 1 <= self.year <= 9999
        &&& 1 <= self.month <= 12
        &&& 1 <= self.day <= spec_days_in_month(self.year as int, self.month as int)
    }

    pub fn is_leap_year(&self) -> (r: bool)
        requires
            self.year >= 1,
        ensures
            r == spec_is_leap_year(self.year as int),
    {
        (self.year % 4 == 0 && self.year % 100 != 0) || self.year % 400 == 0
    }

    pub fn days_in_month(&self) -> (r: i32)
        requires
            self.year >= 1,
            1 <= self.month <= 12,
        ensures
            r as int == spec_days_in_month(self.year as int, self.month as int),
    {
        if self.month == 2 {
            if self.is_leap_year() {
                29
            } else {
                28
            }
        } else if self.month == 4 || self.month == 6 || self.month == 9 || self.month == 11 {
            30
        } else {
            31
        }
    }

    /// Decides validity exactly as `spec_valid` states it.
    pub fn is_valid(&self) -> (r: bool)
        ensures
            r == self.spec_valid(),
    {
        if self.year < 1 || self.year > 9999 {
            return false;
        }
        if self.month < 1 || self.month > 12 {
            return false;
        }
        1 <= self.day && self.day <= self.days_in_month()
    }
}

} // verus!
