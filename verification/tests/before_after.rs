use holiday::{
    BeforeAfterDate, Date, Datelike, DayOfMonth, FirstDayOfMonth, Holiday, HolidayDate,
    IsLastWeekday, LastDayOfMonth, Month, NthWeekday, NthWeekdayOfMonth, Weekday,
};

fn ymd(year: i32, month: u32, day: u32) -> Date {
    Date::from_ymd_opt(year, month, day).unwrap()
}

#[test]
fn test_is_last_weekday() {
    let date = ymd(2020, 7, 28);
    assert!(date.is_last_weekday());

    let date = ymd(2020, 7, 21);
    assert!(!date.is_last_weekday());

    let date = ymd(2020, 12, 31);
    assert!(date.is_last_weekday());

    let date = ymd(2021, 1, 1);
    assert!(!date.is_last_weekday());

    let holiday =
        Holiday::new_nth("Last Tuesday in July", NthWeekday::Last, Weekday::Tue, Month::from(7));
    let holiday2 = Holiday::new_nth(
        "Fourth Tuesday in July",
        NthWeekday::Fourth,
        Weekday::Tue,
        Month::from(7),
    );
    let date = ymd(2020, 7, 28);
    assert_eq!(holiday, date);
    assert_eq!(holiday2, date);
    assert_ne!(holiday, holiday2);
}

#[test]
fn test_last_day_of_month() {
    let date = ymd(2020, 12, 31);
    assert_eq!(date.last_day_of_month(), date);

    let date = ymd(2020, 12, 1);
    let exp = ymd(2020, 12, 31);
    assert_eq!(date.last_day_of_month(), exp);

    let date = ymd(2020, 1, 1);
    let exp = ymd(2020, 1, 31);
    assert_eq!(date.last_day_of_month(), exp);

    let date = ymd(2020, 2, 1);
    let exp = ymd(2020, 2, 29);
    assert_eq!(date.last_day_of_month(), exp);
}

#[test]
fn test_first_day_of_month() {
    let date = ymd(2020, 12, 1);
    assert_eq!(date.first_day_of_month(), date);

    let date = ymd(2020, 12, 31);
    let exp = ymd(2020, 12, 1);
    assert_eq!(date.first_day_of_month(), exp);

    let date = ymd(2020, 1, 31);
    let exp = ymd(2020, 1, 1);
    assert_eq!(date.first_day_of_month(), exp);

    let date = ymd(2020, 2, 29);
    let exp = ymd(2020, 2, 1);
    assert_eq!(date.first_day_of_month(), exp);
}

#[test]
fn last_day_of_month_knows_leap_years() {
    assert_eq!(ymd(2021, 2, 10).last_day_of_month(), ymd(2021, 2, 28));
    assert_eq!(ymd(1900, 2, 10).last_day_of_month(), ymd(1900, 2, 28));
    assert_eq!(ymd(2000, 2, 10).last_day_of_month(), ymd(2000, 2, 29));
    assert_eq!(ymd(2021, 4, 30).last_day_of_month(), ymd(2021, 4, 30));
}

#[test]
fn last_day_of_month_at_the_end_of_the_calendar() {
    let date = ymd(holiday::MAX_YEAR, 12, 5);
    assert_eq!(date.last_day_of_month(), Date::latest());
}

#[test]
fn last_weekday_is_one_of_the_last_seven_days() {
    // May 2020 has 31 days: the 25th is the first of its last seven.
    assert!(ymd(2020, 5, 25).is_last_weekday());
    assert!(!ymd(2020, 5, 24).is_last_weekday());
    // February 2021 has 28 days.
    assert!(ymd(2021, 2, 22).is_last_weekday());
    assert!(!ymd(2021, 2, 21).is_last_weekday());
    // February 2020 has 29 days.
    assert!(ymd(2020, 2, 23).is_last_weekday());
    assert!(!ymd(2020, 2, 22).is_last_weekday());
}

#[test]
fn after_includes_the_date_and_before_excludes_it() {
    let halloween = DayOfMonth::new(31, Month::October);
    let on = ymd(2020, 10, 31);
    assert_eq!(halloween.after(&on), on);
    assert_eq!(halloween.before(&on), ymd(2019, 10, 31));
    assert_eq!(halloween.after(&ymd(2020, 11, 1)), ymd(2021, 10, 31));
    assert_eq!(halloween.before(&ymd(2020, 11, 1)), on);
}

#[test]
fn after_is_never_earlier_and_before_is_earlier() {
    let rules = [
        HolidayDate::FixedDate(DayOfMonth::new(29, Month::February)),
        HolidayDate::FixedDate(DayOfMonth::new(1, Month::January)),
        HolidayDate::NthDate(NthWeekdayOfMonth::new(NthWeekday::Fifth, Weekday::Wed, Month::June)),
        HolidayDate::NthDate(NthWeekdayOfMonth::new(NthWeekday::Last, Weekday::Mon, Month::May)),
        HolidayDate::NthDate(NthWeekdayOfMonth::new(NthWeekday::First, Weekday::Sun, Month::March)),
    ];
    let dates = [ymd(2019, 12, 31), ymd(2020, 2, 29), ymd(2020, 6, 15), ymd(2021, 5, 31)];
    for rule in rules.iter() {
        for date in dates.iter() {
            let next = rule.after(date);
            let prev = rule.before(date);
            assert!(next >= *date);
            assert!(prev < *date);
            // Searching again from what was found finds it again.
            assert_eq!(rule.after(&next), next);
            // Stepping back from the next occurrence gives the one before `date`.
            assert_eq!(rule.before(&next), prev);
        }
    }
}

#[test]
fn nth_weekday_after_jumps_to_its_month() {
    let thanksgiving = NthWeekdayOfMonth::new(NthWeekday::Fourth, Weekday::Thu, Month::November);
    assert_eq!(thanksgiving.after(&ymd(2020, 1, 1)), ymd(2020, 11, 26));
    assert_eq!(thanksgiving.after(&ymd(2020, 11, 26)), ymd(2020, 11, 26));
    assert_eq!(thanksgiving.after(&ymd(2020, 11, 27)), ymd(2021, 11, 25));
    assert_eq!(thanksgiving.after(&ymd(2020, 12, 31)), ymd(2021, 11, 25));
    assert_eq!(thanksgiving.before(&ymd(2020, 11, 26)), ymd(2019, 11, 28));
    assert_eq!(thanksgiving.before(&ymd(2020, 11, 27)), ymd(2020, 11, 26));
    assert_eq!(thanksgiving.before(&ymd(2020, 1, 1)), ymd(2019, 11, 28));
    assert_eq!(thanksgiving.before(&ymd(2020, 12, 31)), ymd(2020, 11, 26));
}

#[test]
fn last_weekday_of_a_month_occurs_every_year() {
    let memorial = NthWeekdayOfMonth::new(NthWeekday::Last, Weekday::Mon, Month::May);
    assert_eq!(memorial.after(&ymd(2021, 1, 1)), ymd(2021, 5, 31));
    assert_eq!(memorial.after(&ymd(2020, 1, 1)), ymd(2020, 5, 25));
    assert_eq!(memorial.after(&ymd(2020, 4, 27)), ymd(2020, 5, 25));
    assert_eq!(memorial.before(&ymd(2021, 5, 31)), ymd(2020, 5, 25));
}

#[test]
fn fifth_weekday_carries_over_to_a_year_that_has_one() {
    let rule = NthWeekdayOfMonth::new(NthWeekday::Fifth, Weekday::Wed, Month::December);
    assert_eq!(rule.after(&ymd(2022, 1, 1)), ymd(2025, 12, 31));
    assert_eq!(rule.before(&ymd(2025, 12, 31)), ymd(2021, 12, 29));
    let leap = NthWeekdayOfMonth::new(NthWeekday::Fifth, Weekday::Sat, Month::February);
    assert_eq!(leap.after(&ymd(2000, 1, 1)), ymd(2020, 2, 29));
    assert_eq!(leap.before(&ymd(2020, 2, 29)), ymd(1992, 2, 29));
}

#[test]
fn leap_day_occurs_in_leap_years_only() {
    let leap_day = DayOfMonth::new(29, Month::February);
    assert_eq!(leap_day.after(&ymd(2021, 1, 1)), ymd(2024, 2, 29));
    assert_eq!(leap_day.after(&ymd(1897, 1, 1)), ymd(1904, 2, 29));
    assert_eq!(leap_day.before(&ymd(1904, 2, 29)), ymd(1896, 2, 29));
}

#[test]
fn searches_end_at_the_ends_of_the_calendar() {
    let new_year = DayOfMonth::new(1, Month::January);
    assert_eq!(new_year.before_opt(&Date::earliest()), None);
    assert_eq!(new_year.after_opt(&Date::earliest()), Some(Date::earliest()));
    assert_eq!(new_year.after_opt(&ymd(holiday::MAX_YEAR, 1, 2)), None);
    assert_eq!(new_year.first_date(), Date::earliest());
    assert_eq!(new_year.last_date(), ymd(holiday::MAX_YEAR, 1, 1));

    let thanksgiving = NthWeekdayOfMonth::new(NthWeekday::Fourth, Weekday::Thu, Month::November);
    assert_eq!(thanksgiving.after_opt(&ymd(holiday::MAX_YEAR, 12, 1)), None);
    assert_eq!(thanksgiving.before_opt(&ymd(holiday::MIN_YEAR, 10, 1)), None);
    assert_eq!(thanksgiving.first_date().year(), holiday::MIN_YEAR);
    assert_eq!(thanksgiving.last_date().year(), holiday::MAX_YEAR);
}

#[test]
fn a_day_that_no_month_has_is_never_found() {
    let never = DayOfMonth::new(31, Month::April);
    assert!(!never.can_occur());
    assert!(DayOfMonth::new(30, Month::April).can_occur());
    assert!(DayOfMonth::new(29, Month::February).can_occur());
    assert!(!DayOfMonth::new(30, Month::February).can_occur());
    assert!(!DayOfMonth::new(0, Month::March).can_occur());
    assert_eq!(never.after_opt(&ymd(holiday::MAX_YEAR - 2, 1, 1)), None);
    assert_eq!(never.before_opt(&ymd(holiday::MIN_YEAR + 2, 1, 1)), None);
}

#[test]
fn holiday_and_its_date_search_alike() {
    let date = HolidayDate::NthDate(NthWeekdayOfMonth::new(
        NthWeekday::Second,
        Weekday::Sun,
        Month::May,
    ));
    let holiday = Holiday::new_nth("Mother's Day", NthWeekday::Second, Weekday::Sun, Month::May);
    let from = ymd(2021, 1, 1);
    assert_eq!(date.after(&from), ymd(2021, 5, 9));
    assert_eq!(holiday.after(&from), ymd(2021, 5, 9));
    assert_eq!(holiday.before(&from), ymd(2020, 5, 10));
    assert_eq!(date.before_opt(&from), Some(ymd(2020, 5, 10)));
}
