//! The next and the previous occurrence of a yearly date, and the ends of a month.

use crate::date::{days_in_month, weekday_of, Date, Datelike, Ymd, MAX_YEAR, MIN_YEAR};
use crate::{DayOfMonth, Holiday, HolidayDate, NthWeekdayOfMonth};
use vstd::prelude::*;

verus! {

/// Finds the next and the previous occurrence of a date that comes back every year.
///
/// The next occurrence may be the reference date itself; the previous one
/// lies before it.
pub trait BeforeAfterDate: Sized {
    /// Whether the yearly date falls on `day`.
    spec fn occurs_on(&self, day: Ymd) -> bool;

    /// The first occurrence on or after `date`, or `None` if no later day
    /// that a [`Date`] can hold is an occurrence.
    fn after_opt(&self, date: &Date) -> (r: Option<Date>)
        ensures
            match r {
                Some(found) => {
                    &&& found@.wf()
                    &&& date@.is_on_or_before(found@)
                    &&& self.occurs_on(found@)
                    &&& forall|day: Ymd|
                        day.wf() && date@.is_on_or_before(day) && day.is_before(found@)
                            ==> !#[trigger] self.occurs_on(day)
                },
                None => forall|day: Ymd|
                    day.wf() && date@.is_on_or_before(day) ==> !#[trigger] self.occurs_on(day),
            },
    ;

    /// The last occurrence before `date`, or `None` if no earlier day that
    /// a [`Date`] can hold is an occurrence.
    fn before_opt(&self, date: &Date) -> (r: Option<Date>)
        ensures
            match r {
                Some(found) => {
                    &&& found@.wf()
                    &&& found@.is_before(date@)
                    &&& self.occurs_on(found@)
                    &&& forall|day: Ymd|
                        day.wf() && found@.is_before(day) && day.is_before(date@)
                            ==> !#[trigger] self.occurs_on(day)
                },
                None => forall|day: Ymd|
                    day.wf() && day.is_before(date@) ==> !#[trigger] self.occurs_on(day),
            },
    ;

    /// The first occurrence on or after `date`.
    fn after(&self, date: &Date) -> (r: Date)
        requires
            exists|day: Ymd|
                day.wf() && date@.is_on_or_before(day) && #[trigger] self.occurs_on(day),
        ensures
            r@.wf(),
            date@.is_on_or_before(r@),
            self.occurs_on(r@),
            forall|day: Ymd|
                day.wf() && date@.is_on_or_before(day) && day.is_before(r@)
                    ==> !#[trigger] self.occurs_on(day),
    ;

    /// The last occurrence before `date`.
    fn before(&self, date: &Date) -> (r: Date)
        requires
            exists|day: Ymd| day.wf() && day.is_before(date@) && #[trigger] self.occurs_on(day),
        ensures
            r@.wf(),
            r@.is_before(date@),
            self.occurs_on(r@),
            forall|day: Ymd|
                day.wf() && r@.is_before(day) && day.is_before(date@)
                    ==> !#[trigger] self.occurs_on(day),
    ;

    /// The first occurrence that a [`Date`] can hold.
    fn first_date(&self) -> (r: Date)
        requires
            exists|day: Ymd| day.wf() && #[trigger] self.occurs_on(day),
        ensures
            r@.wf(),
            self.occurs_on(r@),
            forall|day: Ymd| day.wf() && day.is_before(r@) ==> !#[trigger] self.occurs_on(day),
    ;

    /// The last occurrence before the last day that a [`Date`] can hold.
    fn last_date(&self) -> (r: Date)
        requires
            exists|day: Ymd|
                day.wf() && day.is_before(Ymd::latest()) && #[trigger] self.occurs_on(day),
        ensures
            r@.wf(),
            r@.is_before(Ymd::latest()),
            self.occurs_on(r@),
            forall|day: Ymd|
                day.wf() && r@.is_before(day) && day.is_before(Ymd::latest())
                    ==> !#[trigger] self.occurs_on(day),
    ;
}

/// Whether `rule` has an occurrence on or after `from`.
pub open spec fn occurs_from<H: BeforeAfterDate>(rule: &H, from: Ymd) -> bool {
    exists|day: Ymd| day.wf() && from.is_on_or_before(day) && #[trigger] rule.occurs_on(day)
}

/// Whether `rule` has an occurrence before `before`.
pub open spec fn occurs_before<H: BeforeAfterDate>(rule: &H, before: Ymd) -> bool {
    exists|day: Ymd| day.wf() && day.is_before(before) && #[trigger] rule.occurs_on(day)
}

/// Whether `found` is the first occurrence of `rule` on or after `from`.
pub open spec fn is_first_from<H: BeforeAfterDate>(rule: &H, from: Ymd, found: Ymd) -> bool {
    &&& found.wf()
    &&& from.is_on_or_before(found)
    &&& rule.occurs_on(found)
    &&& forall|day: Ymd|
        day.wf() && from.is_on_or_before(day) && day.is_before(found)
            ==> !#[trigger] rule.occurs_on(day)
}

/// Whether `found` is the last occurrence of `rule` before `before`.
pub open spec fn is_last_before<H: BeforeAfterDate>(rule: &H, before: Ymd, found: Ymd) -> bool {
    &&& found.wf()
    &&& found.is_before(before)
    &&& rule.occurs_on(found)
    &&& forall|day: Ymd|
        day.wf() && found.is_before(day) && day.is_before(before)
            ==> !#[trigger] rule.occurs_on(day)
}

/// No day has two first occurrences on or after it.
pub proof fn lemma_first_from_is_unique<H: BeforeAfterDate>(rule: &H, from: Ymd, a: Ymd, b: Ymd)
    requires
        is_first_from(rule, from, a),
        is_first_from(rule, from, b),
    ensures
        a == b,
{
    if a != b {
        assert(a.is_before(b) || b.is_before(a));
    }
}

/// No day has two last occurrences before it.
pub proof fn lemma_last_before_is_unique<H: BeforeAfterDate>(rule: &H, before: Ymd, a: Ymd, b: Ymd)
    requires
        is_last_before(rule, before, a),
        is_last_before(rule, before, b),
    ensures
        a == b,
{
    if a != b {
        assert(a.is_before(b) || b.is_before(a));
    }
}

/// The search forward from an occurrence that a search forward has found
/// finds that occurrence again, and nothing else.
pub proof fn lemma_after_is_idempotent<H: BeforeAfterDate>(
    rule: &H,
    from: Ymd,
    found: Ymd,
    again: Ymd,
)
    requires
        is_first_from(rule, from, found),
        is_first_from(rule, found, again),
    ensures
        again == found,
{
    assert(is_first_from(rule, found, found));
    lemma_first_from_is_unique(rule, found, found, again);
}

/// The search backward from the occurrence that the search forward from
/// `from` has found gives what the search backward from `from` gives, the
/// last occurrence before `from`: it never gives `from` itself, also where
/// `from` is an occurrence.
pub proof fn lemma_before_after_is_before<H: BeforeAfterDate>(
    rule: &H,
    from: Ymd,
    next: Ymd,
    prev: Ymd,
)
    requires
        is_first_from(rule, from, next),
        is_last_before(rule, next, prev),
    ensures
        prev.is_before(from),
        is_last_before(rule, from, prev),
{
    if !prev.is_before(from) {
        assert(from.is_on_or_before(prev));
        assert(!rule.occurs_on(prev));
    }
}

/// The search forward from the occurrence that a search backward has found
/// stays on that occurrence: an occurrence lies on or after itself.
pub proof fn lemma_after_before_is_fixed<H: BeforeAfterDate>(rule: &H, before: Ymd, prev: Ymd)
    requires
        is_last_before(rule, before, prev),
    ensures
        is_first_from(rule, prev, prev),
{
}

impl BeforeAfterDate for DayOfMonth {
    open spec fn occurs_on(&self, day: Ymd) -> bool {
        self.falls_on(day)
    }

    fn after_opt(&self, date: &Date) -> (r: Option<Date>) {
        proof {
            use_type_invariant(date);
        }
        let mut check_date = *date;
        loop
            invariant
                check_date@.wf(),
                date@.is_on_or_before(check_date@),
                forall|day: Ymd|
                    day.wf() && date@.is_on_or_before(day) && day.is_before(check_date@)
                        ==> !#[trigger] self.occurs_on(day),
            decreases MAX_YEAR - check_date@.year, 12 - check_date@.month, 31 - check_date@.day,
        {
            if *self == check_date {
                return Some(check_date);
            }
            match check_date.succ_opt() {
                Some(next) => {
                    check_date = next;
                },
                None => {
                    return None;
                },
            }
        }
    }

    fn before_opt(&self, date: &Date) -> (r: Option<Date>) {
        let mut check_date = match date.pred_opt() {
            Some(prev) => prev,
            None => {
                return None;
            },
        };
        loop
            invariant
                check_date@.wf(),
                check_date@.is_before(date@),
                forall|day: Ymd|
                    day.wf() && check_date@.is_before(day) && day.is_before(date@)
                        ==> !#[trigger] self.occurs_on(day),
            decreases check_date@.year - MIN_YEAR, check_date@.month, check_date@.day,
        {
            if *self == check_date {
                return Some(check_date);
            }
            match check_date.pred_opt() {
                Some(prev) => {
                    check_date = prev;
                },
                None => {
                    return None;
                },
            }
        }
    }

    fn after(&self, date: &Date) -> (r: Date) {
        match self.after_opt(date) {
            Some(found) => found,
            None => *date,
        }
    }

    fn before(&self, date: &Date) -> (r: Date) {
        match self.before_opt(date) {
            Some(found) => found,
            None => *date,
        }
    }

    fn first_date(&self) -> (r: Date) {
        self.after(&Date::earliest())
    }

    fn last_date(&self) -> (r: Date) {
        self.before(&Date::latest())
    }
}

impl BeforeAfterDate for NthWeekdayOfMonth {
    open spec fn occurs_on(&self, day: Ymd) -> bool {
        self.falls_on(day)
    }

    fn after_opt(&self, date: &Date) -> (r: Option<Date>) {
        proof {
            use_type_invariant(date);
        }
        let month = self.month.number();
        let mut check_date = *date;
        loop
            invariant
                month == self.month.number(),
                check_date@.wf(),
                date@.is_on_or_before(check_date@),
                forall|day: Ymd|
                    day.wf() && date@.is_on_or_before(day) && day.is_before(check_date@)
                        ==> !#[trigger] self.occurs_on(day),
            decreases MAX_YEAR - check_date@.year, 12 - check_date@.month, 31 - check_date@.day,
        {
            if *self == check_date {
                return Some(check_date);
            }
            let year = check_date.year();
            if check_date.month() < month {
                check_date = Date::from_ymd(year, month, 1);
            } else if check_date.month() > month {
                if year == MAX_YEAR {
                    return None;
                }
                check_date = Date::from_ymd(year + 1, month, 1);
            } else {
                match check_date.succ_opt() {
                    Some(next) => {
                        check_date = next;
                    },
                    None => {
                        return None;
                    },
                }
            }
        }
    }

    fn before_opt(&self, date: &Date) -> (r: Option<Date>) {
        let month = self.month.number();
        let mut check_date = match date.pred_opt() {
            Some(prev) => prev,
            None => {
                return None;
            },
        };
        loop
            invariant
                month == self.month.number(),
                check_date@.wf(),
                check_date@.is_before(date@),
                forall|day: Ymd|
                    day.wf() && check_date@.is_before(day) && day.is_before(date@)
                        ==> !#[trigger] self.occurs_on(day),
            decreases check_date@.year - MIN_YEAR, check_date@.month, check_date@.day,
        {
            if *self == check_date {
                return Some(check_date);
            }
            let year = check_date.year();
            if check_date.month() > month {
                check_date = Date::from_ymd(year, month, 1).last_day_of_month();
            } else if check_date.month() < month {
                if year == MIN_YEAR {
                    return None;
                }
                check_date = Date::from_ymd(year - 1, month, 1).last_day_of_month();
            } else {
                match check_date.pred_opt() {
                    Some(prev) => {
                        check_date = prev;
                    },
                    None => {
                        return None;
                    },
                }
            }
        }
    }

    fn after(&self, date: &Date) -> (r: Date) {
        match self.after_opt(date) {
            Some(found) => found,
            None => *date,
        }
    }

    fn before(&self, date: &Date) -> (r: Date) {
        match self.before_opt(date) {
            Some(found) => found,
            None => *date,
        }
    }

    fn first_date(&self) -> (r: Date) {
        self.after(&Date::earliest())
    }

    fn last_date(&self) -> (r: Date) {
        self.before(&Date::latest())
    }
}

impl BeforeAfterDate for HolidayDate {
    open spec fn occurs_on(&self, day: Ymd) -> bool {
        self.falls_on(day)
    }

    fn after_opt(&self, date: &Date) -> (r: Option<Date>) {
        match self {
            HolidayDate::FixedDate(day_of_month) => {
                assert forall|day: Ymd| self.occurs_on(day) == day_of_month.occurs_on(day) by {}
                day_of_month.after_opt(date)
            },
            HolidayDate::NthDate(nth) => {
                assert forall|day: Ymd| self.occurs_on(day) == nth.occurs_on(day) by {}
                nth.after_opt(date)
            },
        }
    }

    fn before_opt(&self, date: &Date) -> (r: Option<Date>) {
        match self {
            HolidayDate::FixedDate(day_of_month) => {
                assert forall|day: Ymd| self.occurs_on(day) == day_of_month.occurs_on(day) by {}
                day_of_month.before_opt(date)
            },
            HolidayDate::NthDate(nth) => {
                assert forall|day: Ymd| self.occurs_on(day) == nth.occurs_on(day) by {}
                nth.before_opt(date)
            },
        }
    }

    fn after(&self, date: &Date) -> (r: Date) {
        match self.after_opt(date) {
            Some(found) => found,
            None => *date,
        }
    }

    fn before(&self, date: &Date) -> (r: Date) {
        match self.before_opt(date) {
            Some(found) => found,
            None => *date,
        }
    }

    fn first_date(&self) -> (r: Date) {
        self.after(&Date::earliest())
    }

    fn last_date(&self) -> (r: Date) {
        self.before(&Date::latest())
    }
}

impl<'a> BeforeAfterDate for Holiday<'a> {
    open spec fn occurs_on(&self, day: Ymd) -> bool {
        self.date.falls_on(day)
    }

    fn after_opt(&self, date: &Date) -> (r: Option<Date>) {
        assert forall|day: Ymd| self.occurs_on(day) == self.date.occurs_on(day) by {}
        self.date.after_opt(date)
    }

    fn before_opt(&self, date: &Date) -> (r: Option<Date>) {
        assert forall|day: Ymd| self.occurs_on(day) == self.date.occurs_on(day) by {}
        self.date.before_opt(date)
    }

    fn after(&self, date: &Date) -> (r: Date) {
        match self.after_opt(date) {
            Some(found) => found,
            None => *date,
        }
    }

    fn before(&self, date: &Date) -> (r: Date) {
        match self.before_opt(date) {
            Some(found) => found,
            None => *date,
        }
    }

    fn first_date(&self) -> (r: Date) {
        self.after(&Date::earliest())
    }

    fn last_date(&self) -> (r: Date) {
        self.before(&Date::latest())
    }
}

/// Finds the last day of a date's month.
pub trait LastDayOfMonth: Datelike {
    /// The last day of the calendar month that `self` lies in.
    fn last_day_of_month(&self) -> (r: Date)
        ensures
            r@ == self.ymd().end_of_month(),
            r@.wf(),
    ;
}

impl<D: Datelike> LastDayOfMonth for D {
    fn last_day_of_month(&self) -> (r: Date) {
        let year = self.year();
        let month = self.month();
        let first_of_next = if month == 12 {
            Date::from_ymd_opt(year + 1, 1, 1)
        } else {
            Date::from_ymd_opt(year, month + 1, 1)
        };
        match first_of_next {
            Some(first) => first.pred(),
            None => Date::latest(),
        }
    }
}

/// Finds the first day of a date's month.
pub trait FirstDayOfMonth: Datelike {
    /// The first day of the calendar month that `self` lies in.
    fn first_day_of_month(&self) -> (r: Date)
        ensures
            r@ == self.ymd().start_of_month(),
            r@.wf(),
    ;
}

impl<D: Datelike> FirstDayOfMonth for D {
    fn first_day_of_month(&self) -> (r: Date) {
        Date::from_ymd(self.year(), self.month(), 1)
    }
}

/// Whether no later day of the same month falls on the weekday of `date`.
///
/// The same weekday comes back every seventh day, so this holds exactly of
/// the last seven days of a month. The first day of the next month does not
/// count: it falls on the weekday of the day a week before it, which is the
/// last of that weekday in its month all the same.
pub open spec fn is_last_weekday_of_month(date: Ymd) -> bool {
    date.day + 7 > days_in_month(date.year, date.month)
}

/// Two days of one month fall on the same weekday exactly if they lie a
/// whole number of weeks apart.
pub proof fn lemma_same_weekday_in_month(year: int, month: int, day: int, other: int)
    ensures
        weekday_of(year, month, day) == weekday_of(year, month, other) <==> (day - other) % 7 == 0,
{
}

/// The last seven days of a month are the days whose weekday no later day
/// of the month repeats.
pub proof fn lemma_last_weekday_is_not_repeated(date: Ymd)
    ensures
        is_last_weekday_of_month(date) <==> forall|later: int|
            date.day < later <= days_in_month(date.year, date.month) ==> #[trigger] weekday_of(
                date.year,
                date.month,
                later,
            ) != date.weekday(),
{
    if is_last_weekday_of_month(date) {
        assert forall|later: int|
            date.day < later <= days_in_month(date.year, date.month) implies #[trigger] weekday_of(
            date.year,
            date.month,
            later,
        ) != date.weekday() by {
            lemma_same_weekday_in_month(date.year, date.month, later, date.day);
        }
    } else {
        lemma_same_weekday_in_month(date.year, date.month, date.day + 7, date.day);
    }
}

/// Tells whether a date is the last of its weekday in its month.
pub trait IsLastWeekday: Datelike + Sized {
    /// Whether `self` is the last day of its month that falls on its weekday.
    fn is_last_weekday(self) -> (r: bool)
        ensures
            r == is_last_weekday_of_month(self.ymd()),
    ;
}

impl<D: Datelike> IsLastWeekday for D {
    fn is_last_weekday(self) -> (r: bool)
    {
        let target = self.weekday();
        let last = self.last_day_of_month();
        let ghost start = self.ymd();
        let mut count: u32 = 0;
        let mut date = Date::from_ymd(self.year(), self.month(), self.day());
        while date < last
            invariant
                date@.wf(),
                start.wf(),
                last@ == start.end_of_month(),
                date@.year == start.year,
                date@.month == start.month,
                start.day <= date@.day <= last@.day,
                target == start.weekday(),
                count == (date@.day - start.day) / 7,
            decreases last@.day - date@.day,
        {
            date = date.succ();
            if date.weekday() == target {
                count += 1;
            }
            proof {
                lemma_same_weekday_in_month(start.year, start.month, date@.day, start.day);
            }
        }
        count == 0
    }
}


} // verus!
