//! Scenario tests driving the library as the animation shell does: the
//! floating-point progress-to-elapsed-years transform runs here, the
//! calendar resolution and labels come from the library.

use xkcd1017::{title_for, Date, Day, DayOfYear, Month, Year};

fn on(year: i64, month: Month, day: u8) -> Date {
    Date::new(Year(year), month, Day(day))
}

fn progress_through_year(d: Date) -> f64 {
    let doy = d.get_day_of_year();
    let n = d.year.get_num_days() as f64;
    ((doy.0 as f64 - 1.0) / n).max(0.0).min(1.0)
}

fn day_of_year_from_fraction(year: Year, progress: f64) -> DayOfYear {
    let p = if progress < 0.0 {
        0.0
    } else if progress >= 1.0 {
        1.0
    } else {
        progress
    };
    let q = (year.get_num_days() as f64 * p).floor() as u16;
    DayOfYear::from_scaled_progress(year, q)
}

fn elapsed_years(progress: f64) -> f64 {
    (20.3444 * progress.powi(3) + 3.0).exp() - (3.0f64).exp()
}

fn resolve(now: Date, progress: f64) -> Date {
    let subtract_total_years = elapsed_years(progress);
    let start_prog_year = progress_through_year(now);
    let sub_y = subtract_total_years - start_prog_year;
    if sub_y > 0.0 {
        let y = Year(now.year.0 - sub_y.ceil() as i64);
        let doy = day_of_year_from_fraction(y, 1.0 - sub_y.fract());
        doy.to_ymd(y)
    } else {
        let y = now.year;
        let doy = day_of_year_from_fraction(y, start_prog_year - subtract_total_years);
        doy.to_ymd(y)
    }
}

#[test]
fn progress_zero_elapses_no_years() {
    assert_eq!(elapsed_years(0.0), 0.0);
}

#[test]
fn progress_zero_resolves_to_now() {
    let now = on(2024, Month::June, 15);
    let date = resolve(now, 0.0);
    assert_eq!(date, now);
    assert_eq!(title_for(date, now), "Now");
}

#[test]
fn progress_zero_on_january_first_stays_within_a_day() {
    let now = on(2024, Month::January, 1);
    let date = resolve(now, 0.0);
    // Target date is now, or at most one day off.
    let same = date == now;
    let day_before = date == on(2023, Month::December, 31);
    assert!(same || day_before);
}

#[test]
fn progress_one_reaches_billions_of_years() {
    let now = on(2024, Month::January, 1);
    let elapsed = elapsed_years(1.0);
    assert!(elapsed > 1.0e10 && elapsed < 2.0e10);
    let date = resolve(now, 1.0);
    assert!(date.year.0 <= -1_000_000_000);
    let title = title_for(date, now);
    assert!(title.ends_with(" billion years ago"));
    // The magnitude is rendered with one fractional digit.
    let digits = title.trim_end_matches(" billion years ago");
    assert!(digits.contains('.'));
    assert_eq!(digits, "13.8");
}

#[test]
fn resolved_date_never_increases_as_progress_grows() {
    let now = on(2024, Month::June, 15);
    let mut last = resolve(now, 0.0);
    for i in 1..=2000 {
        let p = i as f64 / 2000.0;
        let date = resolve(now, p);
        assert!(date <= last);
        last = date;
    }
}

#[test]
fn resolved_day_always_fits_its_month() {
    let now = on(2024, Month::June, 15);
    for i in 0..=500 {
        let p = i as f64 / 500.0;
        let date = resolve(now, p);
        assert!(date.day.0 >= 1);
        assert!(date.day.0 <= date.month.num_days(date.year));
    }
}
