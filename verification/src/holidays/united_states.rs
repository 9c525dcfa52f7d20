//! Holidays of the United States.

use crate::{DayOfMonth, Holiday, HolidayDate, Month, NthWeekday, NthWeekdayOfMonth, Weekday};
use vstd::prelude::*;

verus! {

/// Martin Luther King Jr. Day: 3rd Monday in January.
#[verifier::allow_in_spec]
pub fn mlkj_day() -> Holiday<'static>
    returns
        (Holiday {
            name: "Martin Luther King Jr. Day",
            date: HolidayDate::NthDate(
                NthWeekdayOfMonth {
                    nth: NthWeekday::Third,
                    weekday: Weekday::Mon,
                    month: Month::January,
                },
            ),
        }),
{
    Holiday::new_nth("Martin Luther King Jr. Day", NthWeekday::Third, Weekday::Mon, Month::January)
}

/// Groundhog Day: February 2.
#[verifier::allow_in_spec]
pub fn groundhog_day() -> Holiday<'static>
    returns
        (Holiday {
            name: "Groundhog Day",
            date: HolidayDate::FixedDate(DayOfMonth { day: 2, month: Month::February }),
        }),
{
    Holiday::new_fixed("Groundhog Day", Month::February, 2)
}

/// Super Bowl Sunday: 1st Sunday in February.
#[verifier::allow_in_spec]
pub fn superbowl_sunday() -> Holiday<'static>
    returns
        (Holiday {
            name: "Super Bowl Sunday",
            date: HolidayDate::NthDate(
                NthWeekdayOfMonth {
                    nth: NthWeekday::First,
                    weekday: Weekday::Sun,
                    month: Month::February,
                },
            ),
        }),
{
    Holiday::new_nth("Super Bowl Sunday", NthWeekday::First, Weekday::Sun, Month::February)
}

/// President's Day: 3rd Monday in February.
#[verifier::allow_in_spec]
pub fn presidents_day() -> Holiday<'static>
    returns
        (Holiday {
            name: "President's Day",
            date: HolidayDate::NthDate(
                NthWeekdayOfMonth {
                    nth: NthWeekday::Third,
                    weekday: Weekday::Mon,
                    month: Month::February,
                },
            ),
        }),
{
    Holiday::new_nth("President's Day", NthWeekday::Third, Weekday::Mon, Month::February)
}

/// Valentine's Day: February 14.
#[verifier::allow_in_spec]
pub fn valentines_day() -> Holiday<'static>
    returns
        (Holiday {
            name: "Valentine's Day",
            date: HolidayDate::FixedDate(DayOfMonth { day: 14, month: Month::February }),
        }),
{
    Holiday::new_fixed("Valentine's Day", Month::February, 14)
}

/// Daylight Saving Time Starts: 2nd Sunday in March.
#[verifier::allow_in_spec]
pub fn dst_start() -> Holiday<'static>
    returns
        (Holiday {
            name: "Daylight Saving Time Starts",
            date: HolidayDate::NthDate(
                NthWeekdayOfMonth {
                    nth: NthWeekday::Second,
                    weekday: Weekday::Sun,
                    month: Month::March,
                },
            ),
        }),
{
    Holiday::new_nth("Daylight Saving Time Starts", NthWeekday::Second, Weekday::Sun, Month::March)
}

/// April Fool's Day: April 1.
#[verifier::allow_in_spec]
pub fn april_fools_day() -> Holiday<'static>
    returns
        (Holiday {
            name: "April Fool's Day",
            date: HolidayDate::FixedDate(DayOfMonth { day: 1, month: Month::April }),
        }),
{
    Holiday::new_fixed("April Fool's Day", Month::April, 1)
}

/// Kentucky Derby: 1st Saturday in May.
#[verifier::allow_in_spec]
pub fn kentucky_derby() -> Holiday<'static>
    returns
        (Holiday {
            name: "Kentucky Derby",
            date: HolidayDate::NthDate(
                NthWeekdayOfMonth {
                    nth: NthWeekday::First,
                    weekday: Weekday::Sat,
                    month: Month::May,
                },
            ),
        }),
{
    Holiday::new_nth("Kentucky Derby", NthWeekday::First, Weekday::Sat, Month::May)
}

/// Memorial Day: last Monday in May.
#[verifier::allow_in_spec]
pub fn memorial_day() -> Holiday<'static>
    returns
        (Holiday {
            name: "Memorial Day",
            date: HolidayDate::NthDate(
                NthWeekdayOfMonth {
                    nth: NthWeekday::Last,
                    weekday: Weekday::Mon,
                    month: Month::May,
                },
            ),
        }),
{
    Holiday::new_nth("Memorial Day", NthWeekday::Last, Weekday::Mon, Month::May)
}

/// Mother's Day: 2nd Sunday in May.
#[verifier::allow_in_spec]
pub fn mothers_day() -> Holiday<'static>
    returns
        (Holiday {
            name: "Mother's Day",
            date: HolidayDate::NthDate(
                NthWeekdayOfMonth {
                    nth: NthWeekday::Second,
                    weekday: Weekday::Sun,
                    month: Month::May,
                },
            ),
        }),
{
    Holiday::new_nth("Mother's Day", NthWeekday::Second, Weekday::Sun, Month::May)
}

/// Flag Day: June 14.
#[verifier::allow_in_spec]
pub fn flag_day() -> Holiday<'static>
    returns
        (Holiday {
            name: "Flag Day",
            date: HolidayDate::FixedDate(DayOfMonth { day: 14, month: Month::June }),
        }),
{
    Holiday::new_fixed("Flag Day", Month::June, 14)
}

/// Independence Day: July 4.
#[verifier::allow_in_spec]
pub fn independence_day() -> Holiday<'static>
    returns
        (Holiday {
            name: "Independence Day",
            date: HolidayDate::FixedDate(DayOfMonth { day: 4, month: Month::July }),
        }),
{
    Holiday::new_fixed("Independence Day", Month::July, 4)
}

/// Father's Day: 3rd Sunday in June.
#[verifier::allow_in_spec]
pub fn fathers_day() -> Holiday<'static>
    returns
        (Holiday {
            name: "Father's Day",
            date: HolidayDate::NthDate(
                NthWeekdayOfMonth {
                    nth: NthWeekday::Third,
                    weekday: Weekday::Sun,
                    month: Month::June,
                },
            ),
        }),
{
    Holiday::new_nth("Father's Day", NthWeekday::Third, Weekday::Sun, Month::June)
}

/// Labor Day: 1st Monday in September.
#[verifier::allow_in_spec]
pub fn labor_day() -> Holiday<'static>
    returns
        (Holiday {
            name: "Labor Day",
            date: HolidayDate::NthDate(
                NthWeekdayOfMonth {
                    nth: NthWeekday::First,
                    weekday: Weekday::Mon,
                    month: Month::September,
                },
            ),
        }),
{
    Holiday::new_nth("Labor Day", NthWeekday::First, Weekday::Mon, Month::September)
}

/// Halloween: October 31.
#[verifier::allow_in_spec]
pub fn halloween() -> Holiday<'static>
    returns
        (Holiday {
            name: "Halloween",
            date: HolidayDate::FixedDate(DayOfMonth { day: 31, month: Month::October }),
        }),
{
    Holiday::new_fixed("Halloween", Month::October, 31)
}

/// Columbus Day: 2nd Monday in October.
#[verifier::allow_in_spec]
pub fn columbus_day() -> Holiday<'static>
    returns
        (Holiday {
            name: "Columbus Day",
            date: HolidayDate::NthDate(
                NthWeekdayOfMonth {
                    nth: NthWeekday::Second,
                    weekday: Weekday::Mon,
                    month: Month::October,
                },
            ),
        }),
{
    Holiday::new_nth("Columbus Day", NthWeekday::Second, Weekday::Mon, Month::October)
}

/// Veteran's Day: November 11.
#[verifier::allow_in_spec]
pub fn veterans_day() -> Holiday<'static>
    returns
        (Holiday {
            name: "Veteran's Day",
            date: HolidayDate::FixedDate(DayOfMonth { day: 11, month: Month::November }),
        }),
{
    Holiday::new_fixed("Veteran's Day", Month::November, 11)
}

/// Daylight Saving Time Ends: 1st Sunday in November.
#[verifier::allow_in_spec]
pub fn dst_end() -> Holiday<'static>
    returns
        (Holiday {
            name: "Daylight Saving Time Ends",
            date: HolidayDate::NthDate(
                NthWeekdayOfMonth {
                    nth: NthWeekday::First,
                    weekday: Weekday::Sun,
                    month: Month::November,
                },
            ),
        }),
{
    Holiday::new_nth("Daylight Saving Time Ends", NthWeekday::First, Weekday::Sun, Month::November)
}

/// Thanksgiving: 4th Thursday in November.
#[verifier::allow_in_spec]
pub fn thanksgiving() -> Holiday<'static>
    returns
        (Holiday {
            name: "Thanksgiving",
            date: HolidayDate::NthDate(
                NthWeekdayOfMonth {
                    nth: NthWeekday::Fourth,
                    weekday: Weekday::Thu,
                    month: Month::November,
                },
            ),
        }),
{
    Holiday::new_nth("Thanksgiving", NthWeekday::Fourth, Weekday::Thu, Month::November)
}

} // verus!
