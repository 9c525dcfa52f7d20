//! Holidays that are kept all over the world.

use crate::{DayOfMonth, Holiday, HolidayDate, Month};
use vstd::prelude::*;

verus! {

/// New Year's Day: January 1.
#[verifier::allow_in_spec]
pub fn new_years_day() -> Holiday<'static>
    returns
        (Holiday {
            name: "New Year's Day",
            date: HolidayDate::FixedDate(DayOfMonth { day: 1, month: Month::January }),
        }),
{
    Holiday::new_fixed("New Year's Day", Month::January, 1)
}

/// St. Patrick's Day: March 17.
#[verifier::allow_in_spec]
pub fn st_patricks_day() -> Holiday<'static>
    returns
        (Holiday {
            name: "St. Patrick's Day",
            date: HolidayDate::FixedDate(DayOfMonth { day: 17, month: Month::March }),
        }),
{
    Holiday::new_fixed("St. Patrick's Day", Month::March, 17)
}

/// Christmas Eve: December 24.
#[verifier::allow_in_spec]
pub fn christmas_eve() -> Holiday<'static>
    returns
        (Holiday {
            name: "Christmas Eve",
            date: HolidayDate::FixedDate(DayOfMonth { day: 24, month: Month::December }),
        }),
{
    Holiday::new_fixed("Christmas Eve", Month::December, 24)
}

/// Christmas: December 25.
#[verifier::allow_in_spec]
pub fn christmas() -> Holiday<'static>
    returns
        (Holiday {
            name: "Christmas",
            date: HolidayDate::FixedDate(DayOfMonth { day: 25, month: Month::December }),
        }),
{
    Holiday::new_fixed("Christmas", Month::December, 25)
}

/// New Year's Eve: December 31.
#[verifier::allow_in_spec]
pub fn new_years_eve() -> Holiday<'static>
    returns
        (Holiday {
            name: "New Year's Eve",
            date: HolidayDate::FixedDate(DayOfMonth { day: 31, month: Month::December }),
        }),
{
    Holiday::new_fixed("New Year's Eve", Month::December, 31)
}

/// Leap Day: February 29.
#[verifier::allow_in_spec]
pub fn leap_day() -> Holiday<'static>
    returns
        (Holiday {
            name: "Leap Day",
            date: HolidayDate::FixedDate(DayOfMonth { day: 29, month: Month::February }),
        }),
{
    Holiday::new_fixed("Leap Day", Month::February, 29)
}

} // verus!
