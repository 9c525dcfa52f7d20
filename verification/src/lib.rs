//! Annually recurring calendar dates.
//!
//! A recurrence is either a fixed day of a month ("October 31") or the nth
//! occurrence of a weekday in a month ("4th Thursday in November"). For every
//! recurrence and every reference date the crate finds the next and the
//! previous occurrence, compares recurrences with dates and with each other,
//! and walks over the occurrences in both directions.
//!
//! ```
//! use holiday::{BeforeAfterDate, Date, Holiday, Month, NthWeekday, Weekday};
//!
//! let thanksgiving =
//!     Holiday::new_nth("Thanksgiving", NthWeekday::Fourth, Weekday::Thu, Month::November);
//! let november = Date::from_ymd_opt(2020, 11, 1).unwrap();
//! let found = thanksgiving.after(&november);
//! assert_eq!(found, Date::from_ymd_opt(2020, 11, 26).unwrap());
//! assert_eq!(thanksgiving, found);
//! assert_eq!(thanksgiving.before(&found), Date::from_ymd_opt(2019, 11, 28).unwrap());
//! ```

use vstd::prelude::*;
use vstd::std_specs::convert::FromSpecImpl;

pub mod before_after;
pub mod date;
pub mod eq;
pub mod holidays;
pub mod iter;
pub mod recurrence;

pub use before_after::{
    is_first_from, is_last_before, is_last_weekday_of_month, lemma_same_weekday_in_month,
    occurs_before, occurs_from, BeforeAfterDate, FirstDayOfMonth, IsLastWeekday, LastDayOfMonth,
};
pub use iter::{HolidayIter, Walk};
pub use date::{
    days_in_month, is_leap_year, valid_ymd, weekday_of, Date, Datelike, Weekday, Ymd, MAX_YEAR,
    MIN_YEAR,
};
pub use Month::{
    April, August, December, February, January, July, June, March, May, November, October,
    September,
};
pub use NthWeekday::{Fifth, First, Fourth, Last, Second, Third};

verus! {

/// A month of the year.
#[derive(Debug, PartialEq, Eq, PartialOrd, Ord, Copy, Clone, Hash, Structural)]
pub enum Month {
    January,
    February,
    March,
    April,
    May,
    June,
    July,
    August,
    September,
    October,
    November,
    December,
}

impl Month {
    /// The month's number in the year, where January is 1.
    pub open spec fn spec_number(&self) -> u32 {
        match self {
            Month::January => 1,
            Month::February => 2,
            Month::March => 3,
            Month::April => 4,
            Month::May => 5,
            Month::June => 6,
            Month::July => 7,
            Month::August => 8,
            Month::September => 9,
            Month::October => 10,
            Month::November => 11,
            Month::December => 12,
        }
    }

    /// The month with the given number, where January is 1.
    pub open spec fn of_number(number: int) -> Month {
        if number <= 1 {
            Month::January
        } else if number == 2 {
            Month::February
        } else if number == 3 {
            Month::March
        } else if number == 4 {
            Month::April
        } else if number == 5 {
            Month::May
        } else if number == 6 {
            Month::June
        } else if number == 7 {
            Month::July
        } else if number == 8 {
            Month::August
        } else if number == 9 {
            Month::September
        } else if number == 10 {
            Month::October
        } else if number == 11 {
            Month::November
        } else {
            Month::December
        }
    }

    /// The greatest number of days that the month has in any year.
    pub open spec fn longest(&self) -> int {
        days_in_month(0, self.spec_number() as int)
    }

    /// The month's number in the year, where January is 1.
    #[verifier::when_used_as_spec(spec_number)]
    pub fn number(&self) -> (r: u32)
        ensures
            r == self.spec_number(),
            1 <= r <= 12,
    {
        match self {
            Month::January => 1,
            Month::February => 2,
            Month::March => 3,
            Month::April => 4,
            Month::May => 5,
            Month::June => 6,
            Month::July => 7,
            Month::August => 8,
            Month::September => 9,
            Month::October => 10,
            Month::November => 11,
            Month::December => 12,
        }
    }

    /// The month's number in the year, where January is 0.
    pub fn from_zero(&self) -> (r: u32)
        ensures
            r == self.number() - 1,
    {
        self.number() - 1
    }

    /// The month with the given number, where January is 1.
    pub fn from(u: u32) -> (r: Month)
        requires
            1 <= u <= 12,
        ensures
            r == Month::of_number(u as int),
            r.number() == u,
    {
        if u == 1 {
            Month::January
        } else if u == 2 {
            Month::February
        } else if u == 3 {
            Month::March
        } else if u == 4 {
            Month::April
        } else if u == 5 {
            Month::May
        } else if u == 6 {
            Month::June
        } else if u == 7 {
            Month::July
        } else if u == 8 {
            Month::August
        } else if u == 9 {
            Month::September
        } else if u == 10 {
            Month::October
        } else if u == 11 {
            Month::November
        } else {
            Month::December
        }
    }
}

impl From<Month> for u32 {
    fn from(m: Month) -> (r: u32) {
        m.number()
    }
}

impl FromSpecImpl<Month> for u32 {
    open spec fn obeys_from_spec() -> bool {
        true
    }

    open spec fn from_spec(m: Month) -> u32 {
        m.number()
    }
}

/// Which of the occurrences of a weekday in a month is meant.
///
/// `Fifth` is met only in the years in which the month has a fifth such
/// weekday; `Last` is met once in every year.
#[derive(Debug, PartialEq, Eq, PartialOrd, Ord, Copy, Clone, Hash, Structural)]
pub enum NthWeekday {
    First,
    Second,
    Third,
    Fourth,
    Fifth,
    Last,
}

impl NthWeekday {
    /// The ordinal as a number: 1 for `First` up to 5 for `Fifth`, and 6 for `Last`.
    pub open spec fn spec_number(&self) -> u32 {
        match self {
            NthWeekday::First => 1,
            NthWeekday::Second => 2,
            NthWeekday::Third => 3,
            NthWeekday::Fourth => 4,
            NthWeekday::Fifth => 5,
            NthWeekday::Last => 6,
        }
    }

    /// The ordinal for a number: `First` for 1 up to `Fifth` for 5, and `Last` for all above.
    pub open spec fn of_number(number: int) -> NthWeekday {
        if number <= 1 {
            NthWeekday::First
        } else if number == 2 {
            NthWeekday::Second
        } else if number == 3 {
            NthWeekday::Third
        } else if number == 4 {
            NthWeekday::Fourth
        } else if number == 5 {
            NthWeekday::Fifth
        } else {
            NthWeekday::Last
        }
    }

    /// The ordinal as a number: 1 for `First` up to 5 for `Fifth`, and 6 for `Last`.
    #[verifier::when_used_as_spec(spec_number)]
    pub fn number(&self) -> (r: u32)
        ensures
            r == self.spec_number(),
            1 <= r <= 6,
    {
        match self {
            NthWeekday::First => 1,
            NthWeekday::Second => 2,
            NthWeekday::Third => 3,
            NthWeekday::Fourth => 4,
            NthWeekday::Fifth => 5,
            NthWeekday::Last => 6,
        }
    }

    /// The ordinal for a number: `First` for 1 up to `Fifth` for 5, and `Last` for all above.
    pub fn from(u: u32) -> (r: NthWeekday)
        requires
            u != 0,
        ensures
            r == NthWeekday::of_number(u as int),
    {
        if u == 1 {
            NthWeekday::First
        } else if u == 2 {
            NthWeekday::Second
        } else if u == 3 {
            NthWeekday::Third
        } else if u == 4 {
            NthWeekday::Fourth
        } else if u == 5 {
            NthWeekday::Fifth
        } else {
            NthWeekday::Last
        }
    }
}

impl From<NthWeekday> for u32 {
    fn from(nth: NthWeekday) -> (r: u32) {
        nth.number()
    }
}

impl FromSpecImpl<NthWeekday> for u32 {
    open spec fn obeys_from_spec() -> bool {
        true
    }

    open spec fn from_spec(nth: NthWeekday) -> u32 {
        nth.number()
    }
}

/// Which occurrence of its weekday in its month a day of the month is:
/// 1 for the days 1 to 7, 2 for the days 8 to 14, and so on.
pub open spec fn occurrence_in_month(day: int) -> int {
    (day - 1) / 7 + 1
}

/// How many of the days 1 to `day` of a month fall on `weekday`.
pub open spec fn count_of_weekday(year: int, month: int, day: int, weekday: Weekday) -> int
    decreases day,
{
    if day < 1 {
        0
    } else {
        count_of_weekday(year, month, day - 1, weekday) + if weekday_of(year, month, day)
            == weekday {
            1int
        } else {
            0int
        }
    }
}

/// Among the first days of a month, up to `upto`, the weekday of `day`
/// comes once in every seven days, for the first time within the first seven.
proof fn lemma_count_of_weekday(year: int, month: int, day: int, upto: int)
    requires
        1 <= day,
        0 <= upto,
    ensures
        count_of_weekday(year, month, upto, weekday_of(year, month, day)) == (upto + 6 - (day - 1)
            % 7) / 7,
    decreases upto,
{
    if upto >= 1 {
        lemma_count_of_weekday(year, month, day, upto - 1);
        lemma_same_weekday_in_month(year, month, upto, day);
    }
}

/// The place of a day among the days of its weekday in its month is the
/// number of those days from the first of the month up to it.
pub proof fn lemma_occurrence_counts_weekdays(year: int, month: int, day: int)
    requires
        1 <= day,
    ensures
        occurrence_in_month(day) == count_of_weekday(
            year,
            month,
            day,
            weekday_of(year, month, day),
        ),
{
    lemma_count_of_weekday(year, month, day, day);
}

/// Deriving the nth weekday back from one of its occurrences, such as the
/// one that a search from January 1 of `year` has found, gives the same
/// ordinal, weekday and month, unless the ordinal is `Last`: then it gives
/// the number that the last occurrence has in that month, the fourth or the
/// fifth, and only the test for the last weekday tells that it is the last.
pub proof fn lemma_of_date_recovers(rule: NthWeekdayOfMonth, year: int, found: Ymd)
    requires
        is_first_from(&rule, Ymd { year, month: 1, day: 1 }, found),
    ensures
        rule.nth != NthWeekday::Last ==> NthWeekdayOfMonth::of_date(found) == rule,
        rule.nth == NthWeekday::Last ==> {
            let derived = NthWeekdayOfMonth::of_date(found);
            &&& derived.weekday == rule.weekday
            &&& derived.month == rule.month
            &&& derived.nth.number() == occurrence_in_month(found.day)
            &&& derived.nth == NthWeekday::Fourth || derived.nth == NthWeekday::Fifth
            &&& is_last_weekday_of_month(found)
        },
{
    assert(rule.falls_on(found));
    assert(1 <= occurrence_in_month(found.day) <= 5);
    assert(Month::of_number(found.month) == rule.month);
}

/// A fixed day of a month, such as March 31.
#[derive(Debug, PartialEq, Eq, Clone, Copy, Hash, Structural)]
pub struct DayOfMonth {
    /// The day of the month.
    pub day: u32,
    /// The month.
    pub month: Month,
}

impl DayOfMonth {
    /// Whether the month has such a day in some year, so that the fixed day can occur.
    pub open spec fn wf(&self) -> bool {
        1 <= self.day <= self.month.longest()
    }

    /// Whether `day` is this day of this month, in whatever year.
    pub open spec fn falls_on(&self, day: Ymd) -> bool {
        day.month == self.month.number() && day.day == self.day
    }

    /// Whether the month has such a day in some year, so that the fixed day can occur.
    pub fn can_occur(&self) -> (r: bool)
        ensures
            r == self.wf(),
    {
        let longest: u32 = match self.month {
            Month::February => 29,
            Month::April | Month::June | Month::September | Month::November => 30,
            _ => 31,
        };
        1 <= self.day && self.day <= longest
    }

    /// The fixed day `day` of `month`.
    pub fn new(day: u32, month: Month) -> (r: DayOfMonth)
        ensures
            r == (DayOfMonth { day, month }),
    {
        DayOfMonth { day, month }
    }

    /// The walk over all the occurrences of the day that a [`Date`] can
    /// hold, standing on the first of them.
    pub fn iter(&self) -> (r: HolidayIter<'_, DayOfMonth>)
        requires
            self.wf(),
        ensures
            r@.holiday == *self,
            is_first_from(self, Ymd::earliest(), r@.first),
            is_last_before(self, Ymd::latest(), r@.last),
            r@.current == r@.first,
    {
        proof {
            self.lemma_occurs_before(Ymd::latest());
        }
        HolidayIter::new(self)
    }
}

/// The nth occurrence of a weekday in a month, such as the second Tuesday in October.
#[derive(Debug, PartialEq, Eq, Clone, Copy, Hash, Structural)]
pub struct NthWeekdayOfMonth {
    /// Which of the occurrences of the weekday in the month.
    pub nth: NthWeekday,
    /// The day of the week.
    pub weekday: Weekday,
    /// The month.
    pub month: Month,
}

impl NthWeekdayOfMonth {
    /// Whether `day` is this occurrence of this weekday in this month, in whatever year.
    ///
    /// The last occurrence is the one that no later day of the month
    /// repeats; a numbered one is found by its place among the days of that
    /// weekday, counted from the first of the month.
    pub open spec fn falls_on(&self, day: Ymd) -> bool {
        &&& day.month == self.month.number()
        &&& day.weekday() == self.weekday
        &&& if self.nth == NthWeekday::Last {
            is_last_weekday_of_month(day)
        } else {
            occurrence_in_month(day.day) == self.nth.number()
        }
    }

    /// The numbered occurrence of its weekday in its month that `day` is.
    pub open spec fn of_date(day: Ymd) -> NthWeekdayOfMonth {
        NthWeekdayOfMonth {
            nth: NthWeekday::of_number(occurrence_in_month(day.day)),
            weekday: day.weekday(),
            month: Month::of_number(day.month),
        }
    }

    /// The `nth` `weekday` of `month`.
    pub fn new(nth: NthWeekday, weekday: Weekday, month: Month) -> (r: NthWeekdayOfMonth)
        ensures
            r == (NthWeekdayOfMonth { nth, weekday, month }),
    {
        NthWeekdayOfMonth { nth, weekday, month }
    }

    /// The walk over all the occurrences of the nth weekday that a [`Date`]
    /// can hold, standing on the first of them.
    pub fn iter(&self) -> (r: HolidayIter<'_, NthWeekdayOfMonth>)
        ensures
            r@.holiday == *self,
            is_first_from(self, Ymd::earliest(), r@.first),
            is_last_before(self, Ymd::latest(), r@.last),
            r@.current == r@.first,
    {
        proof {
            self.lemma_occurs_before(Ymd::latest());
        }
        HolidayIter::new(self)
    }

    /// The numbered occurrence of its weekday in its month that `date` is,
    /// found by counting the days of that weekday from the first of the month.
    pub fn from(date: Date) -> (r: NthWeekdayOfMonth)
        ensures
            r == NthWeekdayOfMonth::of_date(date@),
            r.nth != NthWeekday::Last,
    {
        let weekday = date.weekday();
        let mut nth: u32 = 0;
        let mut loop_date = date.first_day_of_month();
        let ghost first = (date@.day - 1) % 7 + 1;
        loop
            invariant_except_break
                loop_date@.wf(),
                loop_date@.year == date@.year,
                loop_date@.month == date@.month,
                loop_date@.day <= date@.day,
                nth == (loop_date@.day + 6 - first) / 7,
            invariant
                date@.wf(),
                weekday == date@.weekday(),
                first == (date@.day - 1) % 7 + 1,
            ensures
                nth == occurrence_in_month(date@.day),
            decreases date@.day - loop_date@.day,
        {
            proof {
                lemma_same_weekday_in_month(
                    date@.year,
                    date@.month,
                    loop_date@.day,
                    date@.day,
                );
            }
            if loop_date.weekday() == weekday {
                nth += 1;
            }
            if loop_date >= date {
                break ;
            }
            loop_date = loop_date.succ();
        }
        NthWeekdayOfMonth { nth: NthWeekday::from(nth), weekday, month: Month::from(date.month()) }
    }
}

/// A date that comes back every year.
#[derive(Debug, PartialEq, Eq, Clone, Copy, Hash, Structural)]
pub enum HolidayDate {
    /// A fixed day of a month, such as October 31.
    FixedDate(DayOfMonth),
    /// The nth occurrence of a weekday in a month, such as the 4th Thursday in November.
    NthDate(NthWeekdayOfMonth),
}

impl HolidayDate {
    /// The walk over all the occurrences of the yearly date that a [`Date`]
    /// can hold, standing on the first of them.
    pub fn iter(&self) -> (r: HolidayIter<'_, HolidayDate>)
        requires
            self.wf(),
        ensures
            r@.holiday == *self,
            is_first_from(self, Ymd::earliest(), r@.first),
            is_last_before(self, Ymd::latest(), r@.last),
            r@.current == r@.first,
    {
        proof {
            self.lemma_occurs_before(Ymd::latest());
        }
        HolidayIter::new(self)
    }

    /// Whether the yearly date can occur: a fixed day must exist in its
    /// month in some year, and every nth weekday occurs.
    pub open spec fn wf(&self) -> bool {
        match self {
            HolidayDate::FixedDate(day_of_month) => day_of_month.wf(),
            HolidayDate::NthDate(_) => true,
        }
    }

    /// Whether the yearly date can occur.
    pub fn can_occur(&self) -> (r: bool)
        ensures
            r == self.wf(),
    {
        match self {
            HolidayDate::FixedDate(day_of_month) => day_of_month.can_occur(),
            HolidayDate::NthDate(_) => true,
        }
    }

    /// Whether the yearly date falls on `day`.
    pub open spec fn falls_on(&self, day: Ymd) -> bool {
        match self {
            HolidayDate::FixedDate(day_of_month) => day_of_month.falls_on(day),
            HolidayDate::NthDate(nth) => nth.falls_on(day),
        }
    }
}

/// The place of a character in the code charts.
pub open spec fn code_point(c: char) -> u32 {
    c as u32
}

/// No two characters share a place in the code charts.
pub proof fn lemma_code_point_is_injective(a: char, b: char)
    ensures
        code_point(a) == code_point(b) <==> a == b,
{
}

/// A yearly date with a name.
#[derive(Debug, Clone, Copy)]
pub struct Holiday<'a> {
    /// The name, by which holidays with the same yearly date are told apart.
    pub name: &'a str,
    /// The yearly date.
    pub date: HolidayDate,
}

impl<'a> Holiday<'a> {
    /// The holiday `name` on the fixed day `day` of `month`.
    pub fn new_fixed(name: &'a str, month: Month, day: u32) -> (r: Holiday<'a>)
        ensures
            r.name == name,
            r.date == HolidayDate::FixedDate(DayOfMonth { day, month }),
    {
        Holiday { name, date: HolidayDate::FixedDate(DayOfMonth { month, day }) }
    }

    /// The holiday `name` on the `nth` `weekday` of `month`.
    pub fn new_nth(name: &'a str, nth: NthWeekday, weekday: Weekday, month: Month) -> (r: Holiday<
        'a,
    >)
        ensures
            r.name == name,
            r.date == HolidayDate::NthDate(NthWeekdayOfMonth { nth, weekday, month }),
    {
        Holiday { name, date: HolidayDate::NthDate(NthWeekdayOfMonth::new(nth, weekday, month)) }
    }

    /// The name of the holiday.
    pub fn name(&self) -> (r: &'a str)
        ensures
            r == self.name,
    {
        self.name
    }

    /// The walk over all the occurrences of the holiday that a [`Date`] can
    /// hold, standing on the first of them.
    pub fn iter(&self) -> (r: HolidayIter<'_, Holiday<'a>>)
        requires
            self.date.wf(),
        ensures
            r@.holiday == *self,
            is_first_from(self, Ymd::earliest(), r@.first),
            is_last_before(self, Ymd::latest(), r@.last),
            r@.current == r@.first,
    {
        proof {
            self.lemma_occurs_before(Ymd::latest());
        }
        HolidayIter::new(self)
    }

    /// The first occurrence of the holiday on or after January 1 of `year`.
    pub fn in_year(&self, year: i32) -> (r: Date)
        requires
            MIN_YEAR <= year <= MAX_YEAR,
            occurs_from(self, Ymd { year: year as int, month: 1, day: 1 }),
        ensures
            is_first_from(self, Ymd { year: year as int, month: 1, day: 1 }, r@),
    {
        self.after(&Date::from_ymd(year, 1, 1))
    }
}

} // verus!
