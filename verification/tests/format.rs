use xkcd1017::numfmt::{i64_to_grouped, u64_to_dec, u64_to_grouped};
use xkcd1017::{title_for, CommaWrapper, Date, Day, Month, Year};

#[test]
fn plain_decimal() {
    assert_eq!(u64_to_dec(0), "0");
    assert_eq!(u64_to_dec(7), "7");
    assert_eq!(u64_to_dec(10), "10");
    assert_eq!(u64_to_dec(12345), "12345");
}

#[test]
fn comma_grouping() {
    assert_eq!(u64_to_grouped(0), "0");
    assert_eq!(u64_to_grouped(999), "999");
    assert_eq!(u64_to_grouped(1000), "1,000");
    assert_eq!(u64_to_grouped(1001), "1,001");
    assert_eq!(u64_to_grouped(15000), "15,000");
    assert_eq!(u64_to_grouped(1234567), "1,234,567");
    assert_eq!(u64_to_grouped(1000000), "1,000,000");
    assert_eq!(u64_to_grouped(100200300), "100,200,300");
}

#[test]
fn comma_grouping_signed() {
    assert_eq!(i64_to_grouped(-1), "-1");
    assert_eq!(i64_to_grouped(-1234567), "-1,234,567");
    assert_eq!(i64_to_grouped(42), "42");
    assert_eq!(i64_to_grouped(i64::MIN), "-9,223,372,036,854,775,808");
}

#[test]
fn comma_wrapper_groups_its_value() {
    let w = CommaWrapper::new(15000);
    assert_eq!(w.0, 15000);
    assert_eq!(w.comma_string(), "15,000");
    assert_eq!(CommaWrapper::new(-2500).comma_string(), "-2,500");
}

fn on(year: i64, month: Month, day: u8) -> Date {
    Date::new(Year(year), month, Day(day))
}

#[test]
fn title_year_zero_is_1_ad() {
    let now = on(2024, Month::June, 15);
    assert_eq!(title_for(on(0, Month::January, 1), now), "1 AD");
}

#[test]
fn title_years_ago_tier() {
    let now = on(2024, Month::June, 15);
    assert_eq!(title_for(on(-15000, Month::January, 1), now), "15,000 years ago");
    assert_eq!(title_for(on(-10000, Month::January, 1), now), "10,000 years ago");
}

#[test]
fn title_billion_years_tier() {
    let now = on(2024, Month::June, 15);
    assert_eq!(
        title_for(on(-2_500_000_000, Month::January, 1), now),
        "2.5 billion years ago"
    );
    assert_eq!(
        title_for(on(-14_000_000_000, Month::January, 1), now),
        "14.0 billion years ago"
    );
    assert_eq!(
        title_for(on(-1_000_000_000, Month::January, 1), now),
        "1.0 billion years ago"
    );
}

#[test]
fn title_million_years_tier() {
    let now = on(2024, Month::June, 15);
    assert_eq!(
        title_for(on(-1_000_000, Month::January, 1), now),
        "1 million years ago"
    );
    assert_eq!(
        title_for(on(-65_000_000, Month::January, 1), now),
        "65 million years ago"
    );
}

#[test]
fn title_bc_and_ad_tiers() {
    let now = on(2024, Month::June, 15);
    assert_eq!(title_for(on(-44, Month::March, 15), now), "44 BC");
    assert_eq!(title_for(on(-9999, Month::January, 1), now), "9999 BC");
    assert_eq!(title_for(on(1, Month::January, 1), now), "1 AD");
    assert_eq!(title_for(on(1000, Month::January, 1), now), "1000 AD");
}

#[test]
fn title_bare_year_and_month_year_tiers() {
    let now = on(2024, Month::June, 15);
    assert_eq!(title_for(on(1001, Month::January, 1), now), "1001");
    assert_eq!(title_for(on(1900, Month::January, 1), now), "1900");
    assert_eq!(title_for(on(1950, Month::June, 20), now), "June 1950");
    assert_eq!(title_for(on(1950, Month::Feburary, 10), now), "February 1950");
    assert_eq!(title_for(on(2000, Month::December, 31), now), "December 2000");
}

#[test]
fn title_now_and_full_date() {
    let now = on(2024, Month::June, 15);
    assert_eq!(title_for(now, now), "Now");
    assert_eq!(title_for(on(2010, Month::May, 3), now), "3 May 2010");
    assert_eq!(title_for(on(2024, Month::June, 14), now), "14 June 2024");
}
