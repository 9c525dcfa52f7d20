use holiday::holidays::global::{christmas, new_years_day, new_years_eve};
use holiday::holidays::united_states::{memorial_day, thanksgiving};
use holiday::{
    BeforeAfterDate, Date, DayOfMonth, Holiday, Month, NthWeekday, NthWeekdayOfMonth, Weekday,
};

fn date_of(year: i32, month: u32, day: u32) -> Date {
    Date::from_ymd_opt(year, month, day).unwrap()
}

#[test]
fn holiday_in_year() {
    assert_eq!(christmas().in_year(2020), date_of(2020, 12, 25));
    assert_eq!(thanksgiving().in_year(2020), date_of(2020, 11, 26));
    assert_eq!(new_years_day().in_year(2020), date_of(2020, 1, 1));
    assert_eq!(new_years_eve().in_year(2020), date_of(2020, 12, 31));
}

#[test]
fn tgives_nth_weekday_of_month() {
    let tgives = NthWeekdayOfMonth::new(NthWeekday::Fourth, Weekday::Thu, Month::from(11));

    let now = chrono::Local::now().date_naive();
    let today = date_of(
        chrono::Datelike::year(&now),
        chrono::Datelike::month(&now),
        chrono::Datelike::day(&now),
    );
    println!("{:?}", tgives.after(&today));
    println!("{:?}", tgives.before(&today));

    println!("{:?}", NthWeekdayOfMonth::from(date_of(2020, 6, 8)));
}

#[test]
fn last_monday_in_may_2021() {
    assert_eq!(memorial_day().in_year(2021), date_of(2021, 5, 31));
    assert_eq!(memorial_day().in_year(2020), date_of(2020, 5, 25));
}

#[test]
fn fixed_day_equals_its_date_in_every_year() {
    let halloween = DayOfMonth::new(31, Month::October);
    assert_eq!(halloween, date_of(2020, 10, 31));
    assert_eq!(halloween, date_of(2021, 10, 31));
    assert_ne!(halloween, date_of(2020, 10, 30));
    assert_ne!(halloween, date_of(2020, 12, 31));
}

#[test]
fn doc_example_first_friday_in_april() {
    let pastover = Holiday::new_nth("Pastover", NthWeekday::First, Weekday::Fri, Month::April);
    assert_eq!(pastover.in_year(2021), date_of(2021, 4, 2));
    assert_eq!(pastover, date_of(2021, 4, 2));
    assert_eq!(pastover, date_of(2022, 4, 1));

    let holiday = Holiday::new_fixed("April 2nd", Month::April, 2);
    assert_eq!(holiday.in_year(2021), date_of(2021, 4, 2));
    assert_eq!(holiday, date_of(2021, 4, 2));
    assert_eq!(holiday, date_of(2022, 4, 2));
    assert_eq!(*holiday.name(), *"April 2nd");
}

#[test]
fn nth_weekday_from_date_counts_from_the_first() {
    let derived = NthWeekdayOfMonth::from(date_of(2020, 6, 8));
    assert_eq!(derived, NthWeekdayOfMonth::new(NthWeekday::Second, Weekday::Mon, Month::June));
    let derived = NthWeekdayOfMonth::from(date_of(2020, 6, 1));
    assert_eq!(derived, NthWeekdayOfMonth::new(NthWeekday::First, Weekday::Mon, Month::June));
    let derived = NthWeekdayOfMonth::from(date_of(2020, 6, 7));
    assert_eq!(derived, NthWeekdayOfMonth::new(NthWeekday::First, Weekday::Sun, Month::June));
    let derived = NthWeekdayOfMonth::from(date_of(2020, 6, 29));
    assert_eq!(derived, NthWeekdayOfMonth::new(NthWeekday::Fifth, Weekday::Mon, Month::June));
    let derived = NthWeekdayOfMonth::from(date_of(2020, 6, 28));
    assert_eq!(derived, NthWeekdayOfMonth::new(NthWeekday::Fourth, Weekday::Sun, Month::June));
}

#[test]
fn nth_weekday_round_trip() {
    for year in [2019, 2020, 2021, 2022] {
        for nth in [NthWeekday::First, NthWeekday::Third, NthWeekday::Fifth] {
            let rule = NthWeekdayOfMonth::new(nth, Weekday::Fri, Month::March);
            let found = rule.after(&date_of(year, 1, 1));
            assert_eq!(NthWeekdayOfMonth::from(found), rule);
        }
    }
    // The last Monday in May 2021 is the fifth one, and in 2020 the fourth.
    let last = NthWeekdayOfMonth::new(NthWeekday::Last, Weekday::Mon, Month::May);
    let found = last.after(&date_of(2021, 1, 1));
    assert_eq!(
        NthWeekdayOfMonth::from(found),
        NthWeekdayOfMonth::new(NthWeekday::Fifth, Weekday::Mon, Month::May)
    );
    let found = last.after(&date_of(2020, 1, 1));
    assert_eq!(
        NthWeekdayOfMonth::from(found),
        NthWeekdayOfMonth::new(NthWeekday::Fourth, Weekday::Mon, Month::May)
    );
    assert_eq!(last, found);
}

#[test]
fn months_and_ordinals_have_numbers() {
    assert_eq!(Month::from(1), Month::January);
    assert_eq!(Month::from(11), Month::November);
    assert_eq!(Month::from(12), Month::December);
    assert_eq!(Month::December.number(), 12);
    assert_eq!(Month::January.from_zero(), 0);
    assert_eq!(Month::October.from_zero(), 9);
    assert_eq!(u32::from(Month::July), 7);
    assert_eq!(NthWeekday::from(1), NthWeekday::First);
    assert_eq!(NthWeekday::from(4), NthWeekday::Fourth);
    assert_eq!(NthWeekday::from(5), NthWeekday::Fifth);
    assert_eq!(NthWeekday::from(6), NthWeekday::Last);
    assert_eq!(NthWeekday::from(17), NthWeekday::Last);
    assert_eq!(u32::from(NthWeekday::Last), 6);
    assert_eq!(u32::from(NthWeekday::Second), 2);
    assert!(NthWeekday::Third == 3);
    assert!(NthWeekday::Third != 4);
    assert!(NthWeekday::Last != 6);
}
