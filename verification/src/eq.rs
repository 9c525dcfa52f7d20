//! Comparing a yearly date with a day of the calendar, and yearly dates with each other.

use crate::before_after::IsLastWeekday;
use crate::date::{Date, Datelike};
use crate::{
    code_point, lemma_code_point_is_injective, occurrence_in_month, DayOfMonth, Holiday, HolidayDate, Month, NthWeekday,
    NthWeekdayOfMonth,
};
use std::cmp::Ordering;
use vstd::prelude::*;
use vstd::std_specs::cmp::{PartialEqSpecImpl, PartialOrdSpecImpl};

verus! {

impl PartialEq<Date> for DayOfMonth {
    /// Whether `date` is this day of this month, in whatever year.
    fn eq(&self, date: &Date) -> (r: bool) {
        self.month.number() == date.month() && self.day == date.day()
    }
}

impl PartialEqSpecImpl<Date> for DayOfMonth {
    open spec fn obeys_eq_spec() -> bool {
        true
    }

    open spec fn eq_spec(&self, date: &Date) -> bool {
        self.falls_on(date@)
    }
}

impl PartialEq<Date> for NthWeekdayOfMonth {
    /// Whether `date` is this occurrence of this weekday in this month, in whatever year.
    fn eq(&self, date: &Date) -> (r: bool) {
        if self.nth == NthWeekday::Last && date.weekday() == self.weekday {
            date.month() == self.month.number() && date.is_last_weekday()
        } else {
            let derived = NthWeekdayOfMonth::from(*date);
            proof {
                use_type_invariant(date);
                assert(1 <= occurrence_in_month(date@.day) <= 5);
                assert(derived.month == self.month <==> date@.month == self.month.number());
                assert(derived.nth == self.nth <==> occurrence_in_month(date@.day)
                    == self.nth.number());
            }
            *self == derived
        }
    }
}

impl PartialEqSpecImpl<Date> for NthWeekdayOfMonth {
    open spec fn obeys_eq_spec() -> bool {
        true
    }

    open spec fn eq_spec(&self, date: &Date) -> bool {
        self.falls_on(date@)
    }
}

impl PartialEq<u32> for NthWeekday {
    /// Whether the ordinal is the `u`th: `Last` is no number's ordinal.
    fn eq(&self, u: &u32) -> (r: bool) {
        match self {
            NthWeekday::First => *u == 1,
            NthWeekday::Second => *u == 2,
            NthWeekday::Third => *u == 3,
            NthWeekday::Fourth => *u == 4,
            NthWeekday::Fifth => *u == 5,
            NthWeekday::Last => false,
        }
    }
}

impl PartialEqSpecImpl<u32> for NthWeekday {
    open spec fn obeys_eq_spec() -> bool {
        true
    }

    open spec fn eq_spec(&self, u: &u32) -> bool {
        *self != NthWeekday::Last && self.number() == *u
    }
}

impl<'a> PartialEq<Date> for Holiday<'a> {
    /// Whether the holiday falls on `date`.
    fn eq(&self, date: &Date) -> (r: bool) {
        match &self.date {
            HolidayDate::FixedDate(fixed) => *fixed == *date,
            HolidayDate::NthDate(nth) => *nth == *date,
        }
    }
}

impl<'a> PartialEqSpecImpl<Date> for Holiday<'a> {
    open spec fn obeys_eq_spec() -> bool {
        true
    }

    open spec fn eq_spec(&self, date: &Date) -> bool {
        self.date.falls_on(date@)
    }
}

impl<'a> PartialEq<NthWeekdayOfMonth> for Holiday<'a> {
    /// Whether the holiday is this nth weekday of a month.
    fn eq(&self, nth: &NthWeekdayOfMonth) -> (r: bool) {
        match self.date {
            HolidayDate::NthDate(self_nth) => self_nth == *nth,
            HolidayDate::FixedDate(_) => false,
        }
    }
}

impl<'a> PartialEqSpecImpl<NthWeekdayOfMonth> for Holiday<'a> {
    open spec fn obeys_eq_spec() -> bool {
        true
    }

    open spec fn eq_spec(&self, nth: &NthWeekdayOfMonth) -> bool {
        self.date == HolidayDate::NthDate(*nth)
    }
}

impl<'a> PartialEq for Holiday<'a> {
    /// Whether the two holidays have the same yearly date and the same name.
    fn eq(&self, other: &Holiday<'a>) -> (r: bool) {
        self.date == other.date && same_text(self.name, other.name)
    }
}

impl<'a> PartialEqSpecImpl for Holiday<'a> {
    open spec fn obeys_eq_spec() -> bool {
        true
    }

    open spec fn eq_spec(&self, other: &Holiday<'a>) -> bool {
        self.date == other.date && self.name@ == other.name@
    }
}

impl<'a> Eq for Holiday<'a> {

}

/// How `a` stands to `b` among the numbers.
pub open spec fn order_of(a: u32, b: u32) -> Ordering {
    if a < b {
        Ordering::Less
    } else if a == b {
        Ordering::Equal
    } else {
        Ordering::Greater
    }
}

/// How `a` stands to `b` among the texts: the first place where they differ
/// decides, by the characters' code points, and a text comes after each of
/// its proper beginnings.
pub open spec fn order_of_text(a: Seq<char>, b: Seq<char>) -> Ordering
    decreases a.len(),
{
    if a.len() == 0 {
        if b.len() == 0 {
            Ordering::Equal
        } else {
            Ordering::Less
        }
    } else if b.len() == 0 {
        Ordering::Greater
    } else if a[0] == b[0] {
        order_of_text(a.drop_first(), b.drop_first())
    } else {
        order_of(code_point(a[0]), code_point(b[0]))
    }
}

fn compare(a: u32, b: u32) -> (r: Ordering)
    ensures
        r == order_of(a, b),
{
    if a < b {
        Ordering::Less
    } else if a == b {
        Ordering::Equal
    } else {
        Ordering::Greater
    }
}

impl DayOfMonth {
    /// How `self` stands to `other`: the month decides, then the day.
    pub open spec fn order(&self, other: &DayOfMonth) -> Ordering {
        if self.month == other.month {
            order_of(self.day, other.day)
        } else {
            order_of(self.month.number(), other.month.number())
        }
    }

    /// Compares by month, then by day.
    pub fn cmp(&self, other: &DayOfMonth) -> (r: Ordering)
        ensures
            r == self.order(other),
    {
        if self.month == other.month {
            compare(self.day, other.day)
        } else {
            compare(self.month.number(), other.month.number())
        }
    }
}

impl PartialOrd for DayOfMonth {
    fn partial_cmp(&self, other: &DayOfMonth) -> (r: Option<Ordering>) {
        Some(self.cmp(other))
    }
}

impl PartialOrdSpecImpl for DayOfMonth {
    open spec fn obeys_partial_cmp_spec() -> bool {
        true
    }

    open spec fn partial_cmp_spec(&self, other: &DayOfMonth) -> Option<Ordering> {
        Some(self.order(other))
    }
}

impl NthWeekdayOfMonth {
    /// How `self` stands to `other`: the month decides, then the ordinal,
    /// then the weekday, in a week that starts on Sunday.
    pub open spec fn order(&self, other: &NthWeekdayOfMonth) -> Ordering {
        if self.month == other.month {
            if self.nth == other.nth {
                order_of(self.weekday.num_days_from_sunday(), other.weekday.num_days_from_sunday())
            } else {
                order_of(self.nth.number(), other.nth.number())
            }
        } else {
            order_of(self.month.number(), other.month.number())
        }
    }

    /// Compares by month, then by ordinal, then by weekday.
    pub fn cmp(&self, other: &NthWeekdayOfMonth) -> (r: Ordering)
        ensures
            r == self.order(other),
    {
        if self.month == other.month {
            if self.nth == other.nth {
                compare(self.weekday.num_days_from_sunday(), other.weekday.num_days_from_sunday())
            } else {
                compare(self.nth.number(), other.nth.number())
            }
        } else {
            compare(self.month.number(), other.month.number())
        }
    }
}

impl PartialOrd for NthWeekdayOfMonth {
    fn partial_cmp(&self, other: &NthWeekdayOfMonth) -> (r: Option<Ordering>) {
        Some(self.cmp(other))
    }
}

impl PartialOrdSpecImpl for NthWeekdayOfMonth {
    open spec fn obeys_partial_cmp_spec() -> bool {
        true
    }

    open spec fn partial_cmp_spec(&self, other: &NthWeekdayOfMonth) -> Option<Ordering> {
        Some(self.order(other))
    }
}

impl HolidayDate {
    /// The month that the yearly date lies in.
    pub open spec fn spec_month(&self) -> Month {
        match self {
            HolidayDate::FixedDate(day_of_month) => day_of_month.month,
            HolidayDate::NthDate(nth) => nth.month,
        }
    }

    /// How `self` stands to `other`: the month decides; within a month a
    /// fixed day stands before every nth weekday, and two of a kind stand
    /// as their kind orders them.
    pub open spec fn order(&self, other: &HolidayDate) -> Ordering {
        match (self, other) {
            (HolidayDate::FixedDate(a), HolidayDate::FixedDate(b)) => a.order(b),
            (HolidayDate::NthDate(a), HolidayDate::NthDate(b)) => a.order(b),
            (HolidayDate::FixedDate(a), HolidayDate::NthDate(b)) => if a.month == b.month {
                Ordering::Less
            } else {
                order_of(a.month.number(), b.month.number())
            },
            (HolidayDate::NthDate(a), HolidayDate::FixedDate(b)) => if a.month == b.month {
                Ordering::Greater
            } else {
                order_of(a.month.number(), b.month.number())
            },
        }
    }

    /// Compares by month; within a month a fixed day comes first.
    pub fn cmp(&self, other: &HolidayDate) -> (r: Ordering)
        ensures
            r == self.order(other),
    {
        match (self, other) {
            (HolidayDate::FixedDate(self_dom), HolidayDate::FixedDate(other_dom)) => self_dom.cmp(
                other_dom,
            ),
            (HolidayDate::NthDate(self_nwom), HolidayDate::NthDate(other_nwom)) => self_nwom.cmp(
                other_nwom,
            ),
            (HolidayDate::FixedDate(self_dom), HolidayDate::NthDate(other_nwom)) => {
                if self_dom.month == other_nwom.month {
                    Ordering::Less
                } else {
                    compare(self_dom.month.number(), other_nwom.month.number())
                }
            },
            (HolidayDate::NthDate(self_nwom), HolidayDate::FixedDate(other_dom)) => {
                if self_nwom.month == other_dom.month {
                    Ordering::Greater
                } else {
                    compare(self_nwom.month.number(), other_dom.month.number())
                }
            },
        }
    }
}

impl PartialOrd for HolidayDate {
    fn partial_cmp(&self, other: &HolidayDate) -> (r: Option<Ordering>) {
        Some(self.cmp(other))
    }
}

impl PartialOrdSpecImpl for HolidayDate {
    open spec fn obeys_partial_cmp_spec() -> bool {
        true
    }

    open spec fn partial_cmp_spec(&self, other: &HolidayDate) -> Option<Ordering> {
        Some(self.order(other))
    }
}

impl<'a> Holiday<'a> {
    /// How `self` stands to `other`: the yearly dates decide, and the names where those are equal.
    pub open spec fn order(&self, other: &Holiday<'a>) -> Ordering {
        if self.date == other.date {
            order_of_text(self.name@, other.name@)
        } else {
            self.date.order(&other.date)
        }
    }

    /// Compares by yearly date, then by name.
    pub fn cmp(&self, other: &Holiday<'a>) -> (r: Ordering)
        ensures
            r == self.order(other),
    {
        if self.date == other.date {
            text_order(self.name, other.name)
        } else {
            self.date.cmp(&other.date)
        }
    }
}

impl<'a> PartialOrd for Holiday<'a> {
    fn partial_cmp(&self, other: &Holiday<'a>) -> (r: Option<Ordering>) {
        Some(self.cmp(other))
    }
}

impl<'a> PartialOrdSpecImpl for Holiday<'a> {
    open spec fn obeys_partial_cmp_spec() -> bool {
        true
    }

    open spec fn partial_cmp_spec(&self, other: &Holiday<'a>) -> Option<Ordering> {
        Some(self.order(other))
    }
}

/// The order of the yearly dates is a total order: two dates stand equal
/// only if they are the same, swapping them swaps `Less` and `Greater`, and
/// what stands before an earlier one stands before a later one. Months
/// come first; within a month all fixed days stand before all nth weekdays.
pub proof fn lemma_order_is_total(a: HolidayDate, b: HolidayDate, c: HolidayDate)
    ensures
        a.order(&b) == Ordering::Equal <==> a == b,
        a.order(&b) == Ordering::Less <==> b.order(&a) == Ordering::Greater,
        a.order(&b) == Ordering::Less && b.order(&c) == Ordering::Less ==> a.order(&c)
            == Ordering::Less,
        a.spec_month().number() < b.spec_month().number() ==> a.order(&b) == Ordering::Less,
{
}

/// Two texts stand equal in the order of the texts only if they are the same.
pub proof fn lemma_equal_texts(a: Seq<char>, b: Seq<char>)
    ensures
        order_of_text(a, b) == Ordering::Equal <==> a == b,
    decreases a.len(),
{
    if a.len() > 0 && b.len() > 0 {
        lemma_equal_texts(a.drop_first(), b.drop_first());
        lemma_code_point_is_injective(a[0], b[0]);
        if a[0] == b[0] && a.drop_first() == b.drop_first() {
            assert(a =~= seq![a[0]] + a.drop_first());
            assert(b =~= seq![b[0]] + b.drop_first());
        }
    } else if a.len() == 0 && b.len() == 0 {
        assert(a =~= b);
    }
}

/// The order of the texts is a total order: swapping two texts swaps `Less`
/// and `Greater`, and what stands before an earlier text stands before a
/// later one.
pub proof fn lemma_text_order_is_total(a: Seq<char>, b: Seq<char>, c: Seq<char>)
    ensures
        order_of_text(a, b) == Ordering::Less <==> order_of_text(b, a) == Ordering::Greater,
        order_of_text(a, b) == Ordering::Less && order_of_text(b, c) == Ordering::Less
            ==> order_of_text(a, c) == Ordering::Less,
    decreases a.len(),
{
    if a.len() > 0 && b.len() > 0 {
        lemma_code_point_is_injective(a[0], b[0]);
        if c.len() > 0 {
            lemma_code_point_is_injective(b[0], c[0]);
            lemma_code_point_is_injective(a[0], c[0]);
            lemma_text_order_is_total(a.drop_first(), b.drop_first(), c.drop_first());
        } else {
            lemma_text_order_is_total(a.drop_first(), b.drop_first(), c);
        }
    }
}

/// The order of the holidays is a total order: two holidays stand equal
/// only if they have the same yearly date and the same name, swapping them
/// swaps `Less` and `Greater`, and what stands before an earlier one stands
/// before a later one.
pub proof fn lemma_holiday_order_is_total<'a>(a: Holiday<'a>, b: Holiday<'a>, c: Holiday<'a>)
    ensures
        a.order(&b) == Ordering::Equal <==> a.date == b.date && a.name@ == b.name@,
        a.order(&b) == Ordering::Less <==> b.order(&a) == Ordering::Greater,
        a.order(&b) == Ordering::Less && b.order(&c) == Ordering::Less ==> a.order(&c)
            == Ordering::Less,
{
    lemma_order_is_total(a.date, b.date, c.date);
    lemma_order_is_total(b.date, a.date, c.date);
    lemma_order_is_total(b.date, c.date, a.date);
    lemma_equal_texts(a.name@, b.name@);
    lemma_text_order_is_total(a.name@, b.name@, c.name@);
}

/// `==` of `str`.
///
/// Trusted: two strings are equal exactly if they hold the same characters
/// in the same order.
#[verifier::external_body]
pub(crate) fn same_text(a: &str, b: &str) -> (r: bool)
    ensures
        r == (a@ == b@),
{
    a == b
}

/// `Ord::cmp` of `str`.
///
/// Trusted: strings are ordered lexicographically by their bytes, which
/// orders them by the code points of their characters.
#[verifier::external_body]
fn text_order(a: &str, b: &str) -> (r: Ordering)
    ensures
        r == order_of_text(a@, b@),
{
    a.cmp(b)
}

} // verus!
