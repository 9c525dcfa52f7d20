use holiday::holidays::united_states::thanksgiving;
use holiday::{
    Date, Datelike, DayOfMonth, Holiday, HolidayIter, Month, NthWeekday, NthWeekdayOfMonth,
    Weekday,
};

fn at(year: i32, month: u32, day: u32) -> Date {
    Date::from_ymd_opt(year, month, day).unwrap()
}

#[test]
fn tgives_iter() {
    let thanksgiving = thanksgiving();
    println!("{:?}", holiday::BeforeAfterDate::first_date(&thanksgiving));
    println!("{:?}", holiday::BeforeAfterDate::last_date(&thanksgiving));

    let mut tgives = thanksgiving.iter().at(at(2020, 11, 1));
    assert_eq!(tgives.next(), Some(at(2020, 11, 26)));
    assert_eq!(tgives.next(), Some(at(2021, 11, 25)));
    assert_eq!(tgives.next(), Some(at(2022, 11, 24)));
    assert_eq!(tgives.next_back(), Some(at(2021, 11, 25)));
    assert_eq!(tgives.next_back(), Some(at(2020, 11, 26)));
    assert_eq!(tgives.next_back(), Some(at(2019, 11, 28)));
}

#[test]
fn tgives_count() {
    let mut dates = std::collections::HashMap::new();

    let thanksgiving = thanksgiving();
    let mut iter = thanksgiving.iter().at(at(2020, 11, 1)).ending_at(at(12020, 11, 30));
    while let Some(date) = iter.next() {
        *dates.entry(date.day()).or_insert(0) += 1;
    }

    let sum = dates.values().sum::<usize>();
    for (day, count) in dates.iter() {
        let pct = *count as f64 / sum as f64 * 100.0;
        println!("DAY: {}: {:.2}%", day, pct);
    }

    let most_days = dates.into_iter().max_by(|(_k0, v0), (_k1, v1)| v0.cmp(v1)).unwrap().0;

    assert_eq!(most_days, 26);
    assert_eq!(sum, 10001);
}

#[test]
fn jan_dec() {
    let jan = Holiday::new_nth(
        "First Wednesday in January",
        NthWeekday::First,
        Weekday::Wed,
        Month::from(1),
    );
    let mut jan_iter = jan.iter().at(at(2020, 1, 1));
    assert_eq!(jan_iter.next(), Some(at(2020, 1, 1)));
    assert_eq!(jan_iter.next(), Some(at(2021, 1, 6)));
    assert_eq!(jan_iter.next(), Some(at(2022, 1, 5)));
    assert_eq!(jan_iter.next(), Some(at(2023, 1, 4)));

    let dec = Holiday::new_nth(
        "Fifth Wednesday in December",
        NthWeekday::Fifth,
        Weekday::Wed,
        Month::from(12),
    );
    let mut dec_iter = dec.iter().at(at(2020, 12, 1));
    assert_eq!(dec_iter.next(), Some(at(2020, 12, 30)));
    assert_eq!(dec_iter.next(), Some(at(2021, 12, 29)));
    assert_eq!(dec_iter.next(), Some(at(2025, 12, 31)));
}

#[test]
fn iter_stops_at_its_upper_bound() {
    let new_year = DayOfMonth::new(1, Month::January);
    let mut iter = new_year.iter().at(at(2020, 6, 1)).ending_at(at(2023, 1, 1));
    assert_eq!(iter.next(), Some(at(2021, 1, 1)));
    assert_eq!(iter.next(), Some(at(2022, 1, 1)));
    assert_eq!(iter.next(), Some(at(2023, 1, 1)));
    assert_eq!(iter.next(), None);
    assert_eq!(iter.next(), None);
    // The walk has stayed on the last day that it reached.
    assert_eq!(iter.next_back(), Some(at(2022, 1, 1)));
    assert_eq!(iter.next(), Some(at(2023, 1, 1)));
}

#[test]
fn iter_steps_back_while_on_or_above_its_lower_bound() {
    let rule = NthWeekdayOfMonth::new(NthWeekday::Fourth, Weekday::Thu, Month::November);
    let mut iter = rule.iter().starting_at(at(2020, 1, 1)).at(at(2021, 12, 1));
    assert_eq!(iter.next_back(), Some(at(2021, 11, 25)));
    assert_eq!(iter.next_back(), Some(at(2020, 11, 26)));
    // From a day on or above the lower bound the step back may pass it.
    assert_eq!(iter.next_back(), Some(at(2019, 11, 28)));
    assert_eq!(iter.next_back(), None);
    assert_eq!(iter.next(), Some(at(2020, 11, 26)));
}

#[test]
fn iter_starts_on_the_first_occurrence() {
    let new_year = DayOfMonth::new(1, Month::January);
    let mut iter: HolidayIter<DayOfMonth> = new_year.iter();
    assert_eq!(iter.next(), Some(at(holiday::MIN_YEAR + 1, 1, 1)));
    assert_eq!(iter.next_back(), Some(Date::earliest()));
    assert_eq!(iter.next_back(), None);
}

#[test]
fn iter_ends_at_the_end_of_the_calendar() {
    let new_year = DayOfMonth::new(1, Month::January);
    let mut iter = new_year.iter().at(at(holiday::MAX_YEAR - 1, 6, 1));
    assert_eq!(iter.next(), Some(at(holiday::MAX_YEAR, 1, 1)));
    assert_eq!(iter.next(), None);
    let mut iter = new_year.iter().at(Date::latest()).ending_at(Date::latest());
    assert_eq!(iter.next(), None);
    let mut iter = new_year.iter();
    iter.shift_from(Date::latest());
    let mut iter = iter.at(Date::latest());
    assert_eq!(iter.next(), None);
    assert_eq!(iter.next_back(), Some(at(holiday::MAX_YEAR, 1, 1)));
}

#[test]
fn at_widens_the_bounds() {
    let halloween = DayOfMonth::new(31, Month::October);
    let mut iter = halloween.iter().ending_at(at(2000, 1, 1)).at(at(2020, 1, 1));
    // `at` has moved the upper bound from 2000 to the first day of 2020.
    assert_eq!(iter.next(), None);
    assert_eq!(iter.next_back(), Some(at(2019, 10, 31)));
    let mut iter = halloween.iter().ending_at(at(2000, 1, 1)).at(at(2020, 1, 1));
    iter.shift_from(at(2021, 1, 1));
    assert_eq!(iter.next(), Some(at(2020, 10, 31)));
    assert_eq!(iter.next(), None);
}
