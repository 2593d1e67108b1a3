use vstd::prelude::*;

verus! {

/// Largest magnitude a day number can take when it comes out of the calendar
/// library that the store uses: its dates span roughly 262,000 years on
/// either side of the common era, which is fewer than 96,000,000 days.
pub const DAY_NUMBER_ABS_MAX: i64 = 96_000_000;

/// Largest magnitude a day number may have when a date is handed back to the
/// calendar library (to be written to the store): slightly tighter than
/// `DAY_NUMBER_ABS_MAX`, so it is strictly inside the library's range.
pub const DAY_NUMBER_STORE_ABS_MAX: i64 = 95_000_000;

/// A calendar date, held as its day number in the proleptic Gregorian
/// calendar: January 1 of year 1 is day 1, the day before it day 0, and so
/// on.  Calendar arithmetic is plain integer arithmetic on the day number,
/// so "date plus N days" has no time-zone drift by construction.
#[derive(Debug, Clone, Copy, PartialEq, Eq, Structural)]
pub struct Date {
    pub day_number: i64,
}

impl Date {
    /// A date the calendar library could have produced.
    pub open spec fn wf(self) -> bool {
        -DAY_NUMBER_ABS_MAX <= self.day_number <= DAY_NUMBER_ABS_MAX
    }

    /// A date that can also be handed back to the calendar library.
    pub open spec fn storable(self) -> bool {
        -DAY_NUMBER_STORE_ABS_MAX <= self.day_number <= DAY_NUMBER_STORE_ABS_MAX
    }

    /// Builds a date from a day number, rejecting numbers outside the
    /// calendar range.
    pub fn from_day_number(day_number: i64) -> (r: Option<Date>)
        ensures
            (-DAY_NUMBER_ABS_MAX <= day_number <= DAY_NUMBER_ABS_MAX) <==> (r matches Some(
                d,
            ) && d.day_number == day_number),
            r matches Some(d) ==> d.wf(),
    {
        if -DAY_NUMBER_ABS_MAX <= day_number && day_number <= DAY_NUMBER_ABS_MAX {
            Some(Date { day_number })
        } else {
            None
        }
    }

    /// The day number back, for callers that render the date.
    pub fn day_number(&self) -> (n: i64)
        ensures
            n == self.day_number,
    {
        self.day_number
    }

    /// Whether this date can be handed to the calendar library for storage.
    pub fn is_storable(&self) -> (b: bool)
        ensures
            b == self.storable(),
    {
        -DAY_NUMBER_STORE_ABS_MAX <= self.day_number && self.day_number
            <= DAY_NUMBER_STORE_ABS_MAX
    }
}

} // verus!
