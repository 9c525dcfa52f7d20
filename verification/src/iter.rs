//! Walking over the occurrences of a yearly date, forwards and backwards.

use crate::before_after::{
    is_first_from, is_last_before, occurs_before, occurs_from, BeforeAfterDate,
};
use crate::date::{Date, Ymd};
use vstd::prelude::*;

verus! {

/// What a [`HolidayIter`] stands for: the yearly date that it walks over, the
/// two bounds, and the day that it has reached.
pub struct Walk<H> {
    /// The yearly date whose occurrences are walked over.
    pub holiday: H,
    /// The lower bound: from a day below it the walk does not step back.
    pub first: Ymd,
    /// The upper bound: the walk does not step forward past it.
    pub last: Ymd,
    /// The day that the walk has reached.
    pub current: Ymd,
}

impl<H: BeforeAfterDate> Walk<H> {
    /// The walk with its bounds widened so far that `day` lies within them.
    pub open spec fn widened_to(self, day: Ymd) -> Walk<H> {
        Walk {
            first: if day.is_before(self.first) {
                day
            } else {
                self.first
            },
            last: if self.last.is_before(day) {
                day
            } else {
                self.last
            },
            ..self
        }
    }

    /// Whether `found` is the first occurrence after the day that the walk
    /// has reached, and lies within the upper bound.
    pub open spec fn is_next(self, found: Ymd) -> bool {
        &&& found.wf()
        &&& self.current.is_before(found)
        &&& found.is_on_or_before(self.last)
        &&& self.holiday.occurs_on(found)
        &&& forall|day: Ymd|
            day.wf() && self.current.is_before(day) && day.is_before(found)
                ==> !#[trigger] self.holiday.occurs_on(day)
    }

    /// Whether an occurrence lies after the day that the walk has reached
    /// and within the upper bound.
    pub open spec fn has_next(self) -> bool {
        exists|day: Ymd|
            day.wf() && self.current.is_before(day) && day.is_on_or_before(self.last)
                && #[trigger] self.holiday.occurs_on(day)
    }

    /// Whether the walk can step back: the day that it has reached is not
    /// below the lower bound, and an occurrence lies before that day.
    pub open spec fn has_next_back(self) -> bool {
        self.first.is_on_or_before(self.current) && occurs_before(&self.holiday, self.current)
    }
}

/// A walk over the occurrences of a yearly date, in both directions, within two bounds.
#[derive(Debug)]
pub struct HolidayIter<'h, H: BeforeAfterDate> {
    holiday: &'h H,
    first: Date,
    last: Date,
    current: Date,
}

impl<'h, H: BeforeAfterDate> View for HolidayIter<'h, H> {
    type V = Walk<H>;

    closed spec fn view(&self) -> Walk<H> {
        Walk {
            holiday: *self.holiday,
            first: self.first@,
            last: self.last@,
            current: self.current@,
        }
    }
}

impl<'h, H: BeforeAfterDate> HolidayIter<'h, H> {
    /// The walk over all the occurrences of `holiday` that a [`Date`] can
    /// hold, standing on the first of them.
    pub fn new(holiday: &'h H) -> (r: Self)
        requires
            occurs_before(holiday, Ymd::latest()),
        ensures
            r@.holiday == *holiday,
            is_first_from(holiday, Ymd::earliest(), r@.first),
            is_last_before(holiday, Ymd::latest(), r@.last),
            r@.current == r@.first,
    {
        let first = holiday.first_date();
        let last = holiday.last_date();
        HolidayIter { holiday, first, last, current: first }
    }

    /// Moves to the day before `current_date`, so that the next step
    /// forward gives the occurrence on or after `current_date`, and widens
    /// the bounds to hold `current_date`.
    pub fn at(self, current_date: Date) -> (r: Self)
        requires
            current_date@ != Ymd::earliest(),
        ensures
            r@ == (Walk { current: current_date@.prev_day(), ..self@ }).widened_to(current_date@),
    {
        let mut walk = self;
        walk.current = current_date.pred();
        walk.shift_from(current_date);
        walk
    }

    /// Sets the lower bound to the occurrence on or after `start_date`, and
    /// widens the bounds to hold `start_date`: the lower bound is then
    /// `start_date` itself.
    pub fn starting_at(self, start_date: Date) -> (r: Self)
        requires
            occurs_from(&self@.holiday, start_date@),
        ensures
            r@ == (Walk { first: start_date@, ..self@ }).widened_to(start_date@),
    {
        let mut walk = self;
        walk.first = walk.holiday.after(&start_date);
        walk.shift_from(start_date);
        walk
    }

    /// Sets the upper bound to the occurrence before `end_date`, and widens
    /// the bounds to hold `end_date`: the upper bound is then `end_date`
    /// itself.
    pub fn ending_at(self, end_date: Date) -> (r: Self)
        requires
            occurs_before(&self@.holiday, end_date@),
        ensures
            r@ == (Walk { last: end_date@, ..self@ }).widened_to(end_date@),
    {
        let mut walk = self;
        walk.last = walk.holiday.before(&end_date);
        walk.shift_from(end_date);
        walk
    }

    /// Widens the bounds so far that `date` lies within them.
    pub fn shift_from(&mut self, date: Date)
        ensures
            final(self)@ == old(self)@.widened_to(date@),
    {
        if date < self.first {
            self.first = date;
        }
        if date > self.last {
            self.last = date;
        }
    }

    /// Steps forward to the first occurrence after the day that the walk
    /// has reached. Past the upper bound there is none, and the walk stays
    /// where it is.
    pub fn next(&mut self) -> (r: Option<Date>)
        ensures
            r matches Some(found) ==> old(self)@.is_next(found@) && final(self)@ == (Walk {
                current: found@,
                ..old(self)@
            }),
            r is None ==> !old(self)@.has_next() && final(self)@ == old(self)@,
    {
        let from = match self.current.succ_opt() {
            Some(from) => from,
            None => {
                return None;
            },
        };
        match self.holiday.after_opt(&from) {
            Some(next) => {
                if next <= self.last {
                    self.current = next;
                    Some(next)
                } else {
                    None
                }
            },
            None => None,
        }
    }

    /// Steps back to the last occurrence before the day that the walk has
    /// reached. From a day below the lower bound there is no step back, and
    /// the walk stays where it is.
    pub fn next_back(&mut self) -> (r: Option<Date>)
        ensures
            r matches Some(found) ==> old(self)@.first.is_on_or_before(old(self)@.current)
                && is_last_before(&old(self)@.holiday, old(self)@.current, found@) && final(self)@
                == (Walk { current: found@, ..old(self)@ }),
            r is None ==> !old(self)@.has_next_back() && final(self)@ == old(self)@,
    {
        if self.current >= self.first {
            match self.holiday.before_opt(&self.current) {
                Some(prev) => {
                    self.current = prev;
                    Some(prev)
                },
                None => None,
            }
        } else {
            None
        }
    }
}

} // verus!
