//! Every yearly date that can occur at all occurs in every span of 400 years.
//!
//! The searches of [`BeforeAfterDate`] ask that an occurrence lies ahead of
//! them, within the days that a [`Date`](crate::Date) can hold. The lemmas
//! of this module show where that is so.

use crate::before_after::{occurs_before, occurs_from, BeforeAfterDate};
use crate::date::{
    days_from_ce, days_in_month, lemma_calendar_repeats, lemma_year_step, weekday_of, Weekday, Ymd,
    MAX_YEAR, MIN_YEAR,
};
use crate::{DayOfMonth, Holiday, HolidayDate, Month, NthWeekday, NthWeekdayOfMonth};
use vstd::prelude::*;

verus! {

/// Each weekday falls on one of any seven days in a row of a month.
pub proof fn lemma_weekday_in_week(year: int, month: int, start: int, weekday: Weekday) -> (day:
    int)
    ensures
        start <= day < start + 7,
        weekday_of(year, month, day) == weekday,
{
    let first = weekday_of(year, month, start).index_from_monday();
    let day = start + (weekday.index_from_monday() - first) % 7;
    assert(weekday_of(year, month, day).index_from_monday() == weekday.index_from_monday());
    day
}

/// The place in the week, counted from Monday, of the 29th of `month` in `year`.
#[verifier::opaque]
pub open spec fn place_of_29th(year: int, month: int) -> int {
    weekday_of(year, month, 29).index_from_monday()
}

/// How many days after the 29th of `month` in `year` the next `weekday` comes.
pub open spec fn days_to_weekday_from_29th(year: int, month: int, weekday: Weekday) -> int {
    (weekday.index_from_monday() - place_of_29th(year, month)) % 7
}

/// The place in the week of a day is that of its number in the calendar.
proof fn lemma_place_of_day(year: int, month: int, day: int)
    ensures
        weekday_of(year, month, day).index_from_monday() == (days_from_ce(year, month, day) - 1)
            % 7,
{
}

/// A day that lies `ahead` days after another lies `ahead` places after it in the week.
proof fn lemma_place_moves(number: int, ahead: int)
    ensures
        (number + ahead - 1) % 7 == ((number - 1) % 7 + ahead) % 7,
        0 <= (number - 1) % 7 < 7,
{
}

/// From one year to the next the 29th of a month moves on by one or two
/// places in the week.
proof fn lemma_29th_moves_on(year: int, month: int)
    ensures
        0 <= place_of_29th(year, month) < 7,
        place_of_29th(year + 1, month) == (place_of_29th(year, month) + 1) % 7 || place_of_29th(
            year + 1,
            month,
        ) == (place_of_29th(year, month) + 2) % 7,
{
    reveal(place_of_29th);
    lemma_year_step(year, month, 29);
    lemma_place_of_day(year, month, 29);
    lemma_place_of_day(year + 1, month, 29);
    let number = days_from_ce(year, month, 29);
    lemma_place_moves(number, 365);
    lemma_place_moves(number, 366);
    assert((((number - 1) % 7) + 365) % 7 == (((number - 1) % 7) + 1) % 7);
    assert((((number - 1) % 7) + 366) % 7 == (((number - 1) % 7) + 2) % 7);
}

/// The day that comes `ahead` days after the 29th falls on the weekday
/// that lies `ahead` places after that of the 29th.
proof fn lemma_after_29th(year: int, month: int, ahead: int, weekday: Weekday)
    requires
        0 <= ahead,
        (place_of_29th(year, month) + ahead) % 7 == weekday.index_from_monday(),
    ensures
        weekday_of(year, month, 29 + ahead) == weekday,
{
    reveal(place_of_29th);
    lemma_place_of_day(year, month, 29);
    lemma_place_of_day(year, month, 29 + ahead);
    lemma_place_moves(days_from_ce(year, month, 29), ahead);
    assert(days_from_ce(year, month, 29 + ahead) == days_from_ce(year, month, 29) + ahead);
    assert(Weekday::from_index(weekday.index_from_monday()) == weekday);
}

/// In a month other than February, a fifth `weekday` comes in `year` or in
/// one of the five years after it.
pub proof fn lemma_fifth_weekday_occurs(year: int, month: int, weekday: Weekday) -> (found: Ymd)
    requires
        1 <= month <= 12,
        month != 2,
    ensures
        found.in_calendar(),
        found.month == month,
        found.weekday() == weekday,
        29 <= found.day <= 30,
        year <= found.year <= year + days_to_weekday_from_29th(year, month, weekday),
    decreases days_to_weekday_from_29th(year, month, weekday),
{
    let ahead = days_to_weekday_from_29th(year, month, weekday);
    lemma_29th_moves_on(year, month);
    if ahead <= 1 {
        lemma_after_29th(year, month, ahead, weekday);
        Ymd { year, month, day: 29 + ahead }
    } else {
        lemma_fifth_weekday_occurs(year + 1, month, weekday)
    }
}

/// February 29 falls on each weekday in one of seven leap years in a row.
pub proof fn lemma_leap_day_occurs(weekday: Weekday) -> (found: Ymd)
    ensures
        found.in_calendar(),
        found.month == 2,
        found.day == 29,
        found.weekday() == weekday,
{
    let year: int = match weekday {
        Weekday::Tue => 2000,
        Weekday::Sun => 2004,
        Weekday::Fri => 2008,
        Weekday::Wed => 2012,
        Weekday::Mon => 2016,
        Weekday::Sat => 2020,
        Weekday::Thu => 2024,
    };
    Ymd { year, month: 2, day: 29 }
}

impl DayOfMonth {
    /// A day on which the fixed day falls.
    pub proof fn lemma_occurs(self) -> (found: Ymd)
        requires
            self.wf(),
        ensures
            found.in_calendar(),
            self.falls_on(found),
    {
        if self.month == Month::February && self.day == 29 {
            Ymd { year: 2000, month: 2, day: 29 }
        } else {
            Ymd { year: 2001, month: self.month.number() as int, day: self.day as int }
        }
    }

    /// An occurrence lies on or after every day that has 400 years after it.
    pub proof fn lemma_occurs_from(self, from: Ymd)
        requires
            self.wf(),
            MIN_YEAR <= from.year + 1,
            from.year + 400 <= MAX_YEAR,
        ensures
            occurs_from(&self, from),
    {
        let found = HolidayDate::FixedDate(self).lemma_occurs_every_400_years(from.year + 1);
        assert(found.wf() && from.is_on_or_before(found) && self.occurs_on(found));
    }

    /// An occurrence lies before every day that has 400 years before it.
    pub proof fn lemma_occurs_before(self, before: Ymd)
        requires
            self.wf(),
            MIN_YEAR <= before.year - 400,
            before.year - 1 <= MAX_YEAR,
        ensures
            occurs_before(&self, before),
    {
        let found = HolidayDate::FixedDate(self).lemma_occurs_every_400_years(before.year - 400);
        assert(found.wf() && found.is_before(before) && self.occurs_on(found));
    }
}

impl NthWeekdayOfMonth {
    /// An occurrence lies on or after every day that has 400 years after it.
    pub proof fn lemma_occurs_from(self, from: Ymd)
        requires
            MIN_YEAR <= from.year + 1,
            from.year + 400 <= MAX_YEAR,
        ensures
            occurs_from(&self, from),
    {
        let found = HolidayDate::NthDate(self).lemma_occurs_every_400_years(from.year + 1);
        assert(found.wf() && from.is_on_or_before(found) && self.occurs_on(found));
    }

    /// An occurrence lies before every day that has 400 years before it.
    pub proof fn lemma_occurs_before(self, before: Ymd)
        requires
            MIN_YEAR <= before.year - 400,
            before.year - 1 <= MAX_YEAR,
        ensures
            occurs_before(&self, before),
    {
        let found = HolidayDate::NthDate(self).lemma_occurs_every_400_years(before.year - 400);
        assert(found.wf() && found.is_before(before) && self.occurs_on(found));
    }

    /// A day on which the nth weekday falls.
    pub proof fn lemma_occurs(self) -> (found: Ymd)
        ensures
            found.in_calendar(),
            self.falls_on(found),
    {
        let month = self.month.number() as int;
        match self.nth {
            NthWeekday::Last => {
                let start = days_in_month(2001, month) - 6;
                let day = lemma_weekday_in_week(2001, month, start, self.weekday);
                Ymd { year: 2001, month, day }
            },
            NthWeekday::Fifth => {
                if month == 2 {
                    lemma_leap_day_occurs(self.weekday)
                } else {
                    lemma_fifth_weekday_occurs(2001, month, self.weekday)
                }
            },
            _ => {
                let start = 7 * (self.nth.number() - 1) + 1;
                let day = lemma_weekday_in_week(2001, month, start, self.weekday);
                Ymd { year: 2001, month, day }
            },
        }
    }
}

impl HolidayDate {
    /// A day on which the yearly date falls.
    pub proof fn lemma_occurs(self) -> (found: Ymd)
        requires
            self.wf(),
        ensures
            found.in_calendar(),
            self.falls_on(found),
    {
        match self {
            HolidayDate::FixedDate(day_of_month) => day_of_month.lemma_occurs(),
            HolidayDate::NthDate(nth) => nth.lemma_occurs(),
        }
    }

    /// The yearly date falls on a day of `year` or of one of the 399 years after it.
    pub proof fn lemma_occurs_every_400_years(self, year: int) -> (found: Ymd)
        requires
            self.wf(),
        ensures
            found.in_calendar(),
            year <= found.year < year + 400,
            self.falls_on(found),
    {
        let somewhere = self.lemma_occurs();
        let cycles = -((somewhere.year - year) / 400);
        lemma_calendar_repeats(somewhere.year, somewhere.month, somewhere.day, cycles);
        Ymd { year: somewhere.year + 400 * cycles, ..somewhere }
    }

    /// An occurrence lies on or after every day that has 400 years after it.
    pub proof fn lemma_occurs_from(self, from: Ymd)
        requires
            self.wf(),
            MIN_YEAR <= from.year + 1,
            from.year + 400 <= MAX_YEAR,
        ensures
            occurs_from(&self, from),
    {
        let found = self.lemma_occurs_every_400_years(from.year + 1);
        assert(found.wf() && from.is_on_or_before(found) && self.occurs_on(found));
    }

    /// An occurrence lies before every day that has 400 years before it.
    pub proof fn lemma_occurs_before(self, before: Ymd)
        requires
            self.wf(),
            MIN_YEAR <= before.year - 400,
            before.year - 1 <= MAX_YEAR,
        ensures
            occurs_before(&self, before),
    {
        let found = self.lemma_occurs_every_400_years(before.year - 400);
        assert(found.wf() && found.is_before(before) && self.occurs_on(found));
    }
}

impl<'a> Holiday<'a> {
    /// An occurrence lies on or after every day that has 400 years after it.
    pub proof fn lemma_occurs_from(self, from: Ymd)
        requires
            self.date.wf(),
            MIN_YEAR <= from.year + 1,
            from.year + 400 <= MAX_YEAR,
        ensures
            occurs_from(&self, from),
    {
        let found = self.date.lemma_occurs_every_400_years(from.year + 1);
        assert(found.wf() && from.is_on_or_before(found) && self.occurs_on(found));
    }

    /// An occurrence lies before every day that has 400 years before it.
    pub proof fn lemma_occurs_before(self, before: Ymd)
        requires
            self.date.wf(),
            MIN_YEAR <= before.year - 400,
            before.year - 1 <= MAX_YEAR,
        ensures
            occurs_before(&self, before),
    {
        let found = self.date.lemma_occurs_every_400_years(before.year - 400);
        assert(found.wf() && found.is_before(before) && self.occurs_on(found));
    }
}

} // verus!
