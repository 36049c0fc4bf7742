use xkcd1017::{Date, Day, DayOfYear, Month, Year};

#[test]
fn leap_year_rule() {
    assert!(Year(2024).is_leap_year());
    assert!(!Year(2023).is_leap_year());
    assert!(!Year(1900).is_leap_year());
    assert!(Year(2000).is_leap_year());
    assert!(Year(1600).is_leap_year());
    assert!(!Year(2100).is_leap_year());
    // The rule extends to zero and deep-negative years.
    assert!(Year(0).is_leap_year());
    assert!(Year(-44).is_leap_year());
    assert!(!Year(-45).is_leap_year());
    assert!(!Year(-100).is_leap_year());
    assert!(Year(-400).is_leap_year());
}

#[test]
fn days_in_year() {
    assert_eq!(Year(2024).get_num_days(), 366);
    assert_eq!(Year(2023).get_num_days(), 365);
    assert_eq!(Year(1900).get_num_days(), 365);
    assert_eq!(Year(2000).get_num_days(), 366);
    assert_eq!(Year(-44).get_num_days(), 366);
}

#[test]
fn month_ordinals() {
    assert_eq!(Month::January.ordinal0(), 0);
    assert_eq!(Month::December.ordinal0(), 11);
    assert_eq!(Month::January.ordinal1(), 1);
    assert_eq!(Month::December.ordinal1(), 12);
    assert_eq!(Month::from0(0), Some(Month::January));
    assert_eq!(Month::from0(11), Some(Month::December));
    assert_eq!(Month::from0(12), None);
    assert_eq!(Month::from1(1), Some(Month::January));
    assert_eq!(Month::from1(12), Some(Month::December));
    assert_eq!(Month::from1(0), None);
    assert_eq!(Month::from1(13), None);
}

#[test]
fn month_lengths() {
    assert_eq!(Month::January.num_days(Year(2023)), 31);
    assert_eq!(Month::Feburary.num_days(Year(2023)), 28);
    assert_eq!(Month::Feburary.num_days(Year(2024)), 29);
    assert_eq!(Month::April.num_days(Year(2023)), 30);
    assert_eq!(Month::December.num_days(Year(2023)), 31);
}

#[test]
fn all_months_in_order() {
    let months = Month::all_months();
    assert_eq!(months.len(), 12);
    assert_eq!(months[0], Month::January);
    assert_eq!(months[1], Month::Feburary);
    assert_eq!(months[11], Month::December);
    for (i, m) in months.iter().enumerate() {
        assert_eq!(m.ordinal0() as usize, i);
    }
}

#[test]
fn day_of_year_of_dates() {
    let d = Date::new(Year(2024), Month::June, Day(15));
    assert_eq!(d.get_day_of_year().0, 167);
    let d = Date::new(Year(2023), Month::June, Day(15));
    assert_eq!(d.get_day_of_year().0, 166);
    let d = Date::new(Year(2023), Month::January, Day(1));
    assert_eq!(d.get_day_of_year().0, 1);
    let d = Date::new(Year(2023), Month::December, Day(31));
    assert_eq!(d.get_day_of_year().0, 365);
    let d = Date::new(Year(2024), Month::December, Day(31));
    assert_eq!(d.get_day_of_year().0, 366);
}

#[test]
fn day_of_year_lenient_on_oversized_day() {
    // The day is never validated against the month: the count accumulates.
    let d = Date::new(Year(2023), Month::Feburary, Day(30));
    assert_eq!(d.get_day_of_year().0, 61);
}

#[test]
fn date_of_day_of_year() {
    assert_eq!(
        DayOfYear(167).to_ymd(Year(2024)),
        Date::new(Year(2024), Month::June, Day(15))
    );
    assert_eq!(
        DayOfYear(1).to_ymd(Year(2023)),
        Date::new(Year(2023), Month::January, Day(1))
    );
    assert_eq!(
        DayOfYear(365).to_ymd(Year(2023)),
        Date::new(Year(2023), Month::December, Day(31))
    );
    assert_eq!(
        DayOfYear(60).to_ymd(Year(2024)),
        Date::new(Year(2024), Month::Feburary, Day(29))
    );
    assert_eq!(
        DayOfYear(60).to_ymd(Year(2023)),
        Date::new(Year(2023), Month::March, Day(1))
    );
}

#[test]
fn day_of_year_past_year_end_clamps_to_december_31() {
    assert_eq!(
        DayOfYear(366).to_ymd(Year(2023)),
        Date::new(Year(2023), Month::December, Day(31))
    );
    assert_eq!(
        DayOfYear(1000).to_ymd(Year(2024)),
        Date::new(Year(2024), Month::December, Day(31))
    );
}

#[test]
fn round_trip_every_day_of_several_years() {
    for &y in &[2023i64, 2024, 1900, 2000, 0, -44, -15000] {
        let year = Year(y);
        let n = year.get_num_days();
        for k in 1..=n {
            let d = DayOfYear(k).to_ymd(year);
            assert_eq!(d.year, year);
            assert!(d.day.0 >= 1 && d.day.0 <= d.month.num_days(year));
            assert_eq!(d.get_day_of_year().0, k);
        }
    }
}

#[test]
fn from_scaled_progress_clamps_and_is_monotone() {
    let y = Year(2023);
    assert_eq!(DayOfYear::from_scaled_progress(y, 0).0, 1);
    assert_eq!(DayOfYear::from_scaled_progress(y, 364).0, 365);
    assert_eq!(DayOfYear::from_scaled_progress(y, 365).0, 365);
    assert_eq!(DayOfYear::from_scaled_progress(y, 1000).0, 365);
    let mut last = 0u16;
    for q in 0..=400u16 {
        let doy = DayOfYear::from_scaled_progress(y, q).0;
        assert!(doy >= last);
        assert!(doy >= 1 && doy <= 365);
        last = doy;
    }
}

#[test]
fn current_date_is_valid() {
    let d = xkcd1017::current_date();
    assert!(d.day.0 >= 1);
    assert!(d.day.0 <= d.month.num_days(d.year));
}
