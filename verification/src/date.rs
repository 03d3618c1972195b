//! Calendar dates as plain values: year, month and day with the Gregorian
//! validity rules, ordered chronologically.
//!
//! The sorting exercise runs over dates; the library holds them as this
//! plain record so that the ordering the sort is proved against is the
//! field-wise chronological order.

use vstd::prelude::*;

use crate::sort_strategy::Sortable;

verus! {

/// Whether a year is a leap year in the Gregorian calendar.
pub open spec fn spec_is_leap_year(year: int) -> bool {
    (year % 4 == 0 && year % 100 != 0) || year % 400 == 0
}

/// The number of days of a month in a given year.
pub open spec fn spec_days_in_month(year: int, month: int) -> int {
    if month == 2 {
        if spec_is_leap_year(year) {
            29
        } else {
            28
        }
    } else if month == 4 || month == 6 || month == 9 || month == 11 {
        30
    } else {
        31
    }
}

/// A valid calendar date: a year in a sane range, a real month, and a day
/// the month has.
pub open spec fn valid_ymd(year: int, month: int, day: int) -> bool {
    &&& 0 <= year <= 9999
    &&& 1 <= month <= 12
    &&& 1 <= day <= spec_days_in_month(year, month)
}

/// Whether a year is a leap year.
pub fn is_leap_year(year: i32) -> (r: bool)
    requires
        year >= 0,
    ensures
        r == spec_is_leap_year(year as int),
{
    (year % 4 == 0 && year % 100 != 0) || year % 400 == 0
}

/// The number of days of a month.
pub fn days_in_month(year: i32, month: u8) -> (r: u8)
    requires
        year >= 0,
    ensures
        r as int == spec_days_in_month(year as int, month as int),
{
    if month == 2 {
        if is_leap_year(year) {
            29
        } else {
            28
        }
    } else if month == 4 || month == 6 || month == 9 || month == 11 {
        30
    } else {
        31
    }
}

/// A calendar date.
#[derive(Clone, Copy, PartialEq, Eq, Structural, Debug)]
pub struct Date {
    pub year: i32,
    pub month: u8,
    pub day: u8,
}

impl Date {
    /// The date is a real calendar date.
    pub open spec fn valid(self) -> bool {
        valid_ymd(self.year as int, self.month as int, self.day as int)
    }

    /// Builds a date from its parts; the parts must name a real calendar
    /// date.
    pub fn from_ymd(year: i32, month: u8, day: u8) -> (r: Date)
        requires
            valid_ymd(year as int, month as int, day as int),
        ensures
            r == (Date { year, month, day }),
            r.valid(),
    {
        Date { year, month, day }
    }

    /// Chronological order: by year, then month, then day.
    pub open spec fn chrono_le(self, other: Date) -> bool {
        if self.year != other.year {
            self.year < other.year
        } else if self.month != other.month {
            self.month < other.month
        } else {
            self.day <= other.day
        }
    }
}

impl Sortable for Date {
    open spec fn le_spec(self, other: Date) -> bool {
        self.chrono_le(other)
    }

    proof fn lemma_le_total(a: Date, b: Date) {
    }

    proof fn lemma_le_transitive(a: Date, b: Date, c: Date) {
    }

    fn le(&self, other: &Date) -> (r: bool) {
        if self.year != other.year {
            self.year < other.year
        } else if self.month != other.month {
            self.month < other.month
        } else {
            self.day <= other.day
        }
    }
}

impl Default for Date {
    /// The epoch date the exercise's tests use as a neutral value.
    fn default() -> (r: Date)
        ensures
            r == (Date { year: 1970, month: 1u8, day: 1u8 }),
            r.valid(),
    {
        Date { year: 1970, month: 1, day: 1 }
    }
}

} // verus!
