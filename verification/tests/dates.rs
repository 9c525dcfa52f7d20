use holiday::{Date, Datelike, Weekday, MAX_YEAR, MIN_YEAR};

fn day(year: i32, month: u32, day: u32) -> Date {
    Date::from_ymd_opt(year, month, day).unwrap()
}

#[test]
fn from_ymd_opt_takes_the_days_of_the_calendar() {
    let date = Date::from_ymd_opt(2020, 2, 29).unwrap();
    assert_eq!((date.year(), date.month(), date.day()), (2020, 2, 29));
    assert!(Date::from_ymd_opt(2021, 2, 29).is_none());
    assert!(Date::from_ymd_opt(1900, 2, 29).is_none());
    assert!(Date::from_ymd_opt(2000, 2, 29).is_some());
    assert!(Date::from_ymd_opt(2020, 4, 31).is_none());
    assert!(Date::from_ymd_opt(2020, 0, 1).is_none());
    assert!(Date::from_ymd_opt(2020, 13, 1).is_none());
    assert!(Date::from_ymd_opt(2020, 1, 0).is_none());
    assert!(Date::from_ymd_opt(MAX_YEAR + 1, 1, 1).is_none());
    assert!(Date::from_ymd_opt(MIN_YEAR - 1, 12, 31).is_none());
    assert!(Date::from_ymd_opt(MAX_YEAR, 12, 31).is_some());
    assert!(Date::from_ymd_opt(MIN_YEAR, 1, 1).is_some());
}

#[test]
fn earliest_and_latest_are_the_ends_of_the_calendar() {
    assert_eq!(Date::earliest(), day(-262143, 1, 1));
    assert_eq!(Date::latest(), day(262142, 12, 31));
    assert_eq!(Date::earliest().pred_opt(), None);
    assert_eq!(Date::latest().succ_opt(), None);
}

#[test]
fn succ_and_pred_cross_months_and_years() {
    assert_eq!(day(2020, 6, 3).succ(), day(2020, 6, 4));
    assert_eq!(day(2020, 6, 30).succ(), day(2020, 7, 1));
    assert_eq!(day(2020, 12, 31).succ(), day(2021, 1, 1));
    assert_eq!(day(2020, 2, 28).succ(), day(2020, 2, 29));
    assert_eq!(day(2021, 2, 28).succ(), day(2021, 3, 1));
    assert_eq!(day(2020, 6, 4).pred(), day(2020, 6, 3));
    assert_eq!(day(2020, 7, 1).pred(), day(2020, 6, 30));
    assert_eq!(day(2021, 1, 1).pred(), day(2020, 12, 31));
    assert_eq!(day(2020, 3, 1).pred(), day(2020, 2, 29));
    assert_eq!(day(2021, 3, 1).pred(), day(2021, 2, 28));
    assert_eq!(day(2020, 6, 3).succ_opt(), Some(day(2020, 6, 4)));
    assert_eq!(day(2020, 6, 3).pred_opt(), Some(day(2020, 6, 2)));
}

#[test]
fn weekday_counts_from_a_monday() {
    assert_eq!(day(1, 1, 1).weekday(), Weekday::Mon);
    assert_eq!(day(2020, 11, 26).weekday(), Weekday::Thu);
    assert_eq!(day(2020, 2, 29).weekday(), Weekday::Sat);
    assert_eq!(day(2000, 2, 29).weekday(), Weekday::Tue);
    assert_eq!(day(1970, 1, 1).weekday(), Weekday::Thu);
    assert_eq!(day(0, 12, 31).weekday(), Weekday::Sun);
    assert_eq!(day(-1, 3, 1).weekday(), Weekday::Mon);
}

#[test]
fn weekday_repeats_after_400_years() {
    for year in [-800, -1, 0, 1, 1999, 2000, 2020] {
        for (month, d) in [(1, 1), (2, 28), (3, 1), (12, 31)] {
            assert_eq!(day(year, month, d).weekday(), day(year + 400, month, d).weekday());
        }
    }
}

#[test]
fn dates_are_ordered_by_year_month_and_day() {
    assert!(day(2020, 11, 26) < day(2020, 12, 1));
    assert!(day(2020, 12, 1) > day(2020, 11, 26));
    assert!(day(2019, 12, 31) < day(2020, 1, 1));
    assert!(day(2020, 1, 1) <= day(2020, 1, 1));
    assert!(day(2020, 1, 1) >= day(2020, 1, 1));
    assert!(day(2020, 1, 2) > day(2020, 1, 1));
    assert!(day(-5, 1, 1) < day(5, 1, 1));
    assert_eq!(day(2020, 1, 1), day(2020, 1, 1));
    assert_ne!(day(2020, 1, 1), day(2020, 1, 2));
    assert_eq!(day(2020, 1, 2).max(day(2020, 1, 1)), day(2020, 1, 2));
}

#[test]
fn num_days_from_sunday_starts_the_week_on_sunday() {
    assert_eq!(Weekday::Sun.num_days_from_sunday(), 0);
    assert_eq!(Weekday::Mon.num_days_from_sunday(), 1);
    assert_eq!(Weekday::Tue.num_days_from_sunday(), 2);
    assert_eq!(Weekday::Wed.num_days_from_sunday(), 3);
    assert_eq!(Weekday::Thu.num_days_from_sunday(), 4);
    assert_eq!(Weekday::Fri.num_days_from_sunday(), 5);
    assert_eq!(Weekday::Sat.num_days_from_sunday(), 6);
}
