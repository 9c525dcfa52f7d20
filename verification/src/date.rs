//! Calendar dates of the proleptic Gregorian calendar, and the days of the week.
//!
//! A [`Date`] holds year, month and day as plain numbers. The calendar
//! arithmetic itself (which dates exist, the day after, the day before, the
//! day of the week) is done by `chrono`; the contracts of the functions that
//! call it say what it returns in terms of the spec functions of this module.

use chrono::Datelike as _;
use chrono::NaiveDate;
use std::cmp::Ordering;
use vstd::arithmetic::div_mod::{
    lemma_fundamental_div_mod, lemma_fundamental_div_mod_converse, lemma_mod_bound,
};
use vstd::prelude::*;
use vstd::std_specs::cmp::{PartialEqSpecImpl, PartialOrdSpecImpl};

verus! {

/// The first year that a [`Date`] can lie in.
pub const MIN_YEAR: i32 = -262143;

/// The last year that a [`Date`] can lie in.
pub const MAX_YEAR: i32 = 262142;

/// Whether `year` has a 29th of February.
pub open spec fn is_leap_year(year: int) -> bool {
    year % 4 == 0 && (year % 100 != 0 || year % 400 == 0)
}

/// The number of days of `month` in `year`.
pub open spec fn days_in_month(year: int, month: int) -> int {
    if month == 2 {
        if is_leap_year(year) {
            29
        } else {
            28
        }
    } else if month == 4 || month == 6 || month == 9 || month == 11 {
        30
    } else {
        31
    }
}

/// Whether the triple names a day of the calendar.
pub open spec fn in_calendar(year: int, month: int, day: int) -> bool {
    1 <= month <= 12 && 1 <= day <= days_in_month(year, month)
}

/// Whether the triple names a day of the calendar, in a year that a [`Date`] can hold.
pub open spec fn valid_ymd(year: int, month: int, day: int) -> bool {
    MIN_YEAR <= year <= MAX_YEAR && in_calendar(year, month, day)
}

/// The number of days from January 1 of year 1 up to, but excluding, January 1 of `year`.
pub open spec fn days_before_year(year: int) -> int {
    365 * (year - 1) + (year - 1) / 4 - (year - 1) / 100 + (year - 1) / 400
}

/// The number of days of `year` that lie before the first day of `month`.
pub open spec fn days_before_month(year: int, month: int) -> int {
    let leap: int = if month > 2 && is_leap_year(year) { 1 } else { 0 };
    leap + if month <= 1 {
        0int
    } else if month == 2 {
        31
    } else if month == 3 {
        59
    } else if month == 4 {
        90
    } else if month == 5 {
        120
    } else if month == 6 {
        151
    } else if month == 7 {
        181
    } else if month == 8 {
        212
    } else if month == 9 {
        243
    } else if month == 10 {
        273
    } else if month == 11 {
        304
    } else {
        334
    }
}

/// The day's number in the calendar, where January 1 of year 1 is day 1
/// (`chrono` calls it `num_days_from_ce`).
pub open spec fn days_from_ce(year: int, month: int, day: int) -> int {
    days_before_year(year) + days_before_month(year, month) + day
}

/// A day of the week.
#[derive(Clone, Copy, Debug, PartialEq, Eq, Hash, Structural)]
pub enum Weekday {
    Mon,
    Tue,
    Wed,
    Thu,
    Fri,
    Sat,
    Sun,
}

impl Weekday {
    /// The weekday's place in a week that starts on Monday: Monday is 0, Sunday is 6.
    pub open spec fn index_from_monday(self) -> int {
        match self {
            Weekday::Mon => 0,
            Weekday::Tue => 1,
            Weekday::Wed => 2,
            Weekday::Thu => 3,
            Weekday::Fri => 4,
            Weekday::Sat => 5,
            Weekday::Sun => 6,
        }
    }

    /// The number of days since the last Sunday: 0 for Sunday, 6 for Saturday.
    pub open spec fn spec_num_days_from_sunday(&self) -> u32 {
        match self {
            Weekday::Sun => 0,
            Weekday::Mon => 1,
            Weekday::Tue => 2,
            Weekday::Wed => 3,
            Weekday::Thu => 4,
            Weekday::Fri => 5,
            Weekday::Sat => 6,
        }
    }

    /// The weekday at place `index` of a week that starts on Monday.
    pub open spec fn from_index(index: int) -> Weekday {
        if index == 0 {
            Weekday::Mon
        } else if index == 1 {
            Weekday::Tue
        } else if index == 2 {
            Weekday::Wed
        } else if index == 3 {
            Weekday::Thu
        } else if index == 4 {
            Weekday::Fri
        } else if index == 5 {
            Weekday::Sat
        } else {
            Weekday::Sun
        }
    }

    /// The number of days since the last Sunday: 0 for Sunday, 6 for Saturday.
    #[verifier::when_used_as_spec(spec_num_days_from_sunday)]
    pub fn num_days_from_sunday(&self) -> (n: u32)
        ensures
            n == self.spec_num_days_from_sunday(),
    {
        match self {
            Weekday::Sun => 0,
            Weekday::Mon => 1,
            Weekday::Tue => 2,
            Weekday::Wed => 3,
            Weekday::Thu => 4,
            Weekday::Fri => 5,
            Weekday::Sat => 6,
        }
    }
}

/// The day of the week of a day of the calendar: day 1 was a Monday.
pub open spec fn weekday_of(year: int, month: int, day: int) -> Weekday {
    Weekday::from_index((days_from_ce(year, month, day) - 1) % 7)
}

/// Adding a multiple of the divisor adds to the quotient and keeps the remainder.
proof fn lemma_add_multiple(x: int, d: int, q: int)
    requires
        d > 0,
    ensures
        (x + d * q) / d == x / d + q,
        (x + d * q) % d == x % d,
{
    lemma_fundamental_div_mod(x, d);
    lemma_mod_bound(x, d);
    assert(x + d * q == (x / d + q) * d + x % d) by (nonlinear_arith)
        requires
            x == d * (x / d) + x % d,
    ;
    lemma_fundamental_div_mod_converse(x + d * q, d, x / d + q, x % d);
}

/// The calendar repeats every 400 years: the leap years, the lengths of the
/// months and the days of the week.
pub proof fn lemma_calendar_repeats(year: int, month: int, day: int, cycles: int)
    ensures
        is_leap_year(year + 400 * cycles) == is_leap_year(year),
        days_in_month(year + 400 * cycles, month) == days_in_month(year, month),
        days_from_ce(year + 400 * cycles, month, day) == days_from_ce(year, month, day) + 146097
            * cycles,
        weekday_of(year + 400 * cycles, month, day) == weekday_of(year, month, day),
{
    let shifted = year + 400 * cycles;
    lemma_add_multiple(year, 4, 100 * cycles);
    lemma_add_multiple(year, 100, 4 * cycles);
    lemma_add_multiple(year, 400, cycles);
    assert(is_leap_year(shifted) == is_leap_year(year));
    lemma_add_multiple(year - 1, 4, 100 * cycles);
    lemma_add_multiple(year - 1, 100, 4 * cycles);
    lemma_add_multiple(year - 1, 400, cycles);
    assert(days_before_year(shifted) == days_before_year(year) + 146097 * cycles);
    let number = days_from_ce(year, month, day);
    assert(days_from_ce(shifted, month, day) == number + 146097 * cycles);
    lemma_add_multiple(number - 1, 7, 20871 * cycles);
}

/// The quotient grows by one exactly at the multiples of the divisor.
proof fn lemma_div_step(x: int, d: int)
    requires
        d > 0,
    ensures
        x / d - (x - 1) / d == if x % d == 0 {
            1int
        } else {
            0int
        },
{
    lemma_fundamental_div_mod(x, d);
    lemma_mod_bound(x, d);
    let q = x / d;
    let r = x % d;
    if r == 0 {
        assert(x - 1 == (q - 1) * d + (d - 1)) by (nonlinear_arith)
            requires
                x == d * q,
        ;
        lemma_fundamental_div_mod_converse(x - 1, d, q - 1, d - 1);
    } else {
        assert(x - 1 == q * d + (r - 1)) by (nonlinear_arith)
            requires
                x == d * q + r,
        ;
        lemma_fundamental_div_mod_converse(x - 1, d, q, r - 1);
    }
}

/// A year has 366 days if it is a leap year, and 365 if it is not.
pub proof fn lemma_year_length(year: int)
    ensures
        days_before_year(year + 1) - days_before_year(year) == if is_leap_year(year) {
            366int
        } else {
            365int
        },
        !(is_leap_year(year) && is_leap_year(year + 1)),
{
    lemma_div_step(year, 4);
    lemma_div_step(year, 100);
    lemma_div_step(year, 400);
    assert(year % 400 == 0 ==> year % 100 == 0);
    assert(year % 100 == 0 ==> year % 4 == 0);
}

/// From one year to the next a day of the year moves on by 365 or 366 days.
pub proof fn lemma_year_step(year: int, month: int, day: int)
    ensures
        days_from_ce(year + 1, month, day) - days_from_ce(year, month, day) == 365
            || days_from_ce(year + 1, month, day) - days_from_ce(year, month, day) == 366,
{
    lemma_year_length(year);
    let before = days_before_month(year, month);
    let after = days_before_month(year + 1, month);
    assert(month <= 2 ==> after == before);
    assert(month > 2 && is_leap_year(year) ==> after == before - 1);
    assert(month > 2 && is_leap_year(year + 1) ==> after == before + 1);
    assert(month > 2 && !is_leap_year(year) && !is_leap_year(year + 1) ==> after == before);
}

/// A day of the calendar as plain numbers: what a [`Date`] stands for.
pub struct Ymd {
    /// The year; year 0 is the year before year 1.
    pub year: int,
    /// The month, where January is 1.
    pub month: int,
    /// The day of the month, starting from 1.
    pub day: int,
}

impl Ymd {
    /// Whether the day exists in the calendar.
    pub open spec fn in_calendar(self) -> bool {
        in_calendar(self.year, self.month, self.day)
    }

    /// Whether the day exists in the calendar, in a year that a [`Date`] can hold.
    pub open spec fn wf(self) -> bool {
        valid_ymd(self.year, self.month, self.day)
    }

    /// Whether `self` is an earlier day than `other`.
    pub open spec fn is_before(self, other: Ymd) -> bool {
        ||| self.year < other.year
        ||| self.year == other.year && self.month < other.month
        ||| self.year == other.year && self.month == other.month && self.day < other.day
    }

    /// Whether `self` is `other` or an earlier day.
    pub open spec fn is_on_or_before(self, other: Ymd) -> bool {
        self == other || self.is_before(other)
    }

    /// The first day that a [`Date`] can hold.
    pub open spec fn earliest() -> Ymd {
        Ymd { year: MIN_YEAR as int, month: 1, day: 1 }
    }

    /// The last day that a [`Date`] can hold.
    pub open spec fn latest() -> Ymd {
        Ymd { year: MAX_YEAR as int, month: 12, day: 31 }
    }

    /// The day of the week that the day falls on.
    pub open spec fn weekday(self) -> Weekday {
        weekday_of(self.year, self.month, self.day)
    }

    /// The day after `self`.
    pub open spec fn next_day(self) -> Ymd {
        if self.day < days_in_month(self.year, self.month) {
            Ymd { day: self.day + 1, ..self }
        } else if self.month < 12 {
            Ymd { year: self.year, month: self.month + 1, day: 1 }
        } else {
            Ymd { year: self.year + 1, month: 1, day: 1 }
        }
    }

    /// The day before `self`.
    pub open spec fn prev_day(self) -> Ymd {
        if self.day > 1 {
            Ymd { day: self.day - 1, ..self }
        } else if self.month > 1 {
            Ymd {
                year: self.year,
                month: self.month - 1,
                day: days_in_month(self.year, self.month - 1),
            }
        } else {
            Ymd { year: self.year - 1, month: 12, day: 31 }
        }
    }

    /// The first day of the month that `self` lies in.
    pub open spec fn start_of_month(self) -> Ymd {
        Ymd { day: 1, ..self }
    }

    /// The last day of the month that `self` lies in.
    pub open spec fn end_of_month(self) -> Ymd {
        Ymd { day: days_in_month(self.year, self.month), ..self }
    }
}

/// The day after a day of the calendar is the day with the next number, and
/// no day lies between the two; the day before that day is the day itself.
pub proof fn lemma_next_day(day: Ymd)
    requires
        day.in_calendar(),
    ensures
        day.next_day().in_calendar(),
        days_from_ce(day.next_day().year, day.next_day().month, day.next_day().day)
            == days_from_ce(day.year, day.month, day.day) + 1,
        day.next_day().prev_day() == day,
        day.is_before(day.next_day()),
        forall|other: Ymd|
            other.in_calendar() && other.is_before(day.next_day()) ==> #[trigger] other.is_on_or_before(
                day,
            ),
{
    if day.month == 12 && day.day == 31 {
        lemma_year_length(day.year);
    }
}

/// A day of the calendar, from January 1 of `MIN_YEAR` to December 31 of `MAX_YEAR`.
///
/// Every `Date` names a day that exists: the only ways to make one check the
/// numbers, so no function that takes a `Date` has to.
#[derive(Clone, Copy, Debug, Eq, Ord, Hash)]
pub struct Date {
    year: i32,
    month: u32,
    day: u32,
}

impl View for Date {
    type V = Ymd;

    closed spec fn view(&self) -> Ymd {
        Ymd { year: self.year as int, month: self.month as int, day: self.day as int }
    }
}

impl PartialEq for Date {
    fn eq(&self, other: &Date) -> (r: bool) {
        self.year == other.year && self.month == other.month && self.day == other.day
    }
}

impl PartialEqSpecImpl for Date {
    open spec fn obeys_eq_spec() -> bool {
        true
    }

    open spec fn eq_spec(&self, other: &Date) -> bool {
        self@ == other@
    }
}

impl PartialOrd for Date {
    fn partial_cmp(&self, other: &Date) -> (r: Option<Ordering>) {
        if self.year != other.year {
            Some(if self.year < other.year { Ordering::Less } else { Ordering::Greater })
        } else if self.month != other.month {
            Some(if self.month < other.month { Ordering::Less } else { Ordering::Greater })
        } else if self.day != other.day {
            Some(if self.day < other.day { Ordering::Less } else { Ordering::Greater })
        } else {
            Some(Ordering::Equal)
        }
    }
}

impl PartialOrdSpecImpl for Date {
    open spec fn obeys_partial_cmp_spec() -> bool {
        true
    }

    open spec fn partial_cmp_spec(&self, other: &Date) -> Option<Ordering> {
        if self@ == other@ {
            Some(Ordering::Equal)
        } else if self@.is_before(other@) {
            Some(Ordering::Less)
        } else {
            Some(Ordering::Greater)
        }
    }
}

impl Date {
    /// Every `Date` names a day that exists.
    #[verifier::type_invariant]
    pub open spec fn names_a_day(self) -> bool {
        self@.wf()
    }

    /// Two dates that stand for the same day are the same value.
    pub proof fn lemma_view_is_injective(self, other: Date)
        requires
            self@ == other@,
        ensures
            self == other,
    {
    }

    /// The date with the given year, month and day, if there is such a day.
    pub fn from_ymd_opt(year: i32, month: u32, day: u32) -> (r: Option<Date>)
        ensures
            valid_ymd(year as int, month as int, day as int) ==> r.is_some(),
            r matches Some(date) ==> date@.wf() && date@ == (Ymd {
                year: year as int,
                month: month as int,
                day: day as int,
            }),
    {
        naive_from_ymd(year, month, day)
    }

    /// The date with the given year, month and day.
    pub(crate) fn from_ymd(year: i32, month: u32, day: u32) -> (r: Date)
        requires
            valid_ymd(year as int, month as int, day as int),
        ensures
            r@ == (Ymd { year: year as int, month: month as int, day: day as int }),
    {
        match naive_from_ymd(year, month, day) {
            Some(date) => date,
            None => naive_min(),
        }
    }

    /// The first day that a `Date` can hold.
    pub fn earliest() -> (r: Date)
        ensures
            r@ == Ymd::earliest(),
    {
        naive_min()
    }

    /// The last day that a `Date` can hold.
    pub fn latest() -> (r: Date)
        ensures
            r@ == Ymd::latest(),
    {
        naive_max()
    }

    /// The day after `self`, or `None` for the last day that a `Date` can hold.
    pub fn succ_opt(&self) -> (r: Option<Date>)
        ensures
            self@.wf(),
            self@ == Ymd::latest() <==> r.is_none(),
            r matches Some(next) ==> next@.wf() && next@ == self@.next_day(),
    {
        proof {
            use_type_invariant(self);
        }
        naive_succ(self)
    }

    /// The day before `self`, or `None` for the first day that a `Date` can hold.
    pub fn pred_opt(&self) -> (r: Option<Date>)
        ensures
            self@.wf(),
            self@ == Ymd::earliest() <==> r.is_none(),
            r matches Some(prev) ==> prev@.wf() && prev@ == self@.prev_day(),
    {
        proof {
            use_type_invariant(self);
        }
        naive_pred(self)
    }

    /// The day after `self`.
    pub fn succ(&self) -> (r: Date)
        requires
            self@ != Ymd::latest(),
        ensures
            r@ == self@.next_day(),
            r@.wf(),
    {
        proof {
            use_type_invariant(self);
        }
        match naive_succ(self) {
            Some(date) => date,
            None => *self,
        }
    }

    /// The day before `self`.
    pub fn pred(&self) -> (r: Date)
        requires
            self@ != Ymd::earliest(),
        ensures
            r@ == self@.prev_day(),
            r@.wf(),
    {
        proof {
            use_type_invariant(self);
        }
        match naive_pred(self) {
            Some(date) => date,
            None => *self,
        }
    }
}

/// A value that names a day of the calendar.
pub trait Datelike {
    /// The day that the value names.
    spec fn ymd(&self) -> Ymd;

    /// The year of the day.
    fn year(&self) -> (r: i32)
        ensures
            r == self.ymd().year,
            self.ymd().wf(),
    ;

    /// The month of the day, where January is 1.
    fn month(&self) -> (r: u32)
        ensures
            r == self.ymd().month,
            self.ymd().wf(),
    ;

    /// The day of the month, starting from 1.
    fn day(&self) -> (r: u32)
        ensures
            r == self.ymd().day,
            self.ymd().wf(),
    ;

    /// The day of the week.
    fn weekday(&self) -> (r: Weekday)
        ensures
            r == self.ymd().weekday(),
            self.ymd().wf(),
    ;
}

impl Datelike for Date {
    open spec fn ymd(&self) -> Ymd {
        self@
    }

    fn year(&self) -> (r: i32) {
        proof {
            use_type_invariant(self);
        }
        self.year
    }

    fn month(&self) -> (r: u32) {
        proof {
            use_type_invariant(self);
        }
        self.month
    }

    fn day(&self) -> (r: u32) {
        proof {
            use_type_invariant(self);
        }
        self.day
    }

    fn weekday(&self) -> (r: Weekday) {
        proof {
            use_type_invariant(self);
        }
        naive_weekday(self)
    }
}

/// `chrono::NaiveDate::from_ymd_opt`, read back as a [`Date`].
///
/// Trusted: `chrono` gives a date exactly for the triples that name a day of
/// the proleptic Gregorian calendar in a year from `MIN_YEAR` to `MAX_YEAR`,
/// and that date has the year, month and day it was made from.
#[verifier::external_body]
fn naive_from_ymd(year: i32, month: u32, day: u32) -> (r: Option<Date>)
    ensures
        valid_ymd(year as int, month as int, day as int) <==> r.is_some(),
        r matches Some(date) ==> date@ == (Ymd {
            year: year as int,
            month: month as int,
            day: day as int,
        }),
{
    match NaiveDate::from_ymd_opt(year, month, day) {
        Some(d) => Some(Date { year: d.year(), month: d.month(), day: d.day() }),
        None => None,
    }
}

/// `chrono::NaiveDate::MIN`, read back as a [`Date`].
///
/// Trusted: the constant is January 1 of `MIN_YEAR`.
#[verifier::external_body]
fn naive_min() -> (r: Date)
    ensures
        r@ == Ymd::earliest(),
{
    let d = NaiveDate::MIN;
    Date { year: d.year(), month: d.month(), day: d.day() }
}

/// `chrono::NaiveDate::MAX`, read back as a [`Date`].
///
/// Trusted: the constant is December 31 of `MAX_YEAR`.
#[verifier::external_body]
fn naive_max() -> (r: Date)
    ensures
        r@ == Ymd::latest(),
{
    let d = NaiveDate::MAX;
    Date { year: d.year(), month: d.month(), day: d.day() }
}

/// `chrono::NaiveDate::succ_opt` on the `NaiveDate` that `date` names.
///
/// Trusted: `chrono` gives the next day of the calendar, and `None` where
/// that day would lie after `NaiveDate::MAX`.
#[verifier::external_body]
fn naive_succ(date: &Date) -> (r: Option<Date>)
    requires
        date@.wf(),
    ensures
        date@ == Ymd::latest() <==> r.is_none(),
        r matches Some(next) ==> next@ == date@.next_day(),
{
    match NaiveDate::from_ymd_opt(date.year, date.month, date.day).unwrap().succ_opt() {
        Some(d) => Some(Date { year: d.year(), month: d.month(), day: d.day() }),
        None => None,
    }
}

/// `chrono::NaiveDate::pred_opt` on the `NaiveDate` that `date` names.
///
/// Trusted: `chrono` gives the previous day of the calendar, and `None`
/// where that day would lie before `NaiveDate::MIN`.
#[verifier::external_body]
fn naive_pred(date: &Date) -> (r: Option<Date>)
    requires
        date@.wf(),
    ensures
        date@ == Ymd::earliest() <==> r.is_none(),
        r matches Some(prev) ==> prev@ == date@.prev_day(),
{
    match NaiveDate::from_ymd_opt(date.year, date.month, date.day).unwrap().pred_opt() {
        Some(d) => Some(Date { year: d.year(), month: d.month(), day: d.day() }),
        None => None,
    }
}

/// `chrono::Datelike::weekday` on the `NaiveDate` that `date` names.
///
/// Trusted: the weekdays follow each other day by day through the
/// proleptic Gregorian calendar, and January 1 of year 1, the day that
/// `chrono` counts as day 1 (`num_days_from_ce`), is a Monday.
#[verifier::external_body]
fn naive_weekday(date: &Date) -> (r: Weekday)
    requires
        date@.wf(),
    ensures
        r == date@.weekday(),
{
    match NaiveDate::from_ymd_opt(date.year, date.month, date.day).unwrap().weekday() {
        chrono::Weekday::Mon => Weekday::Mon,
        chrono::Weekday::Tue => Weekday::Tue,
        chrono::Weekday::Wed => Weekday::Wed,
        chrono::Weekday::Thu => Weekday::Thu,
        chrono::Weekday::Fri => Weekday::Fri,
        chrono::Weekday::Sat => Weekday::Sat,
        chrono::Weekday::Sun => Weekday::Sun,
    }
}

} // verus!
