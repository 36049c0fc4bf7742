//! Proleptic Gregorian calendar arithmetic: years, months, days,
//! day-of-year conversions and the leap-year rule, extended uniformly to
//! negative (BC) years.

use vstd::prelude::*;

verus! {

/// A calendar year. Positive values are AD/CE; zero and negative values are
/// BC/BCE and prehistoric. The Gregorian leap rule is applied uniformly.
#[derive(Debug, Copy, Clone, PartialEq, Eq, PartialOrd, Ord, Structural)]
pub struct Year(pub i64);

/// Day of the month, 1-indexed. Constructors accept any value; calendar
/// arithmetic degrades gracefully on out-of-range days rather than rejecting
/// them.
#[derive(Debug, Copy, Clone, PartialEq, Eq, PartialOrd, Ord, Structural)]
pub struct Day(pub u8);

/// Day within a year, 1-indexed from January 1.
#[derive(Debug, Copy, Clone, PartialEq, Eq, PartialOrd, Ord, Structural)]
pub struct DayOfYear(pub u16);

/// A month of the Gregorian calendar.
#[derive(Debug, Copy, Clone, PartialEq, Eq, PartialOrd, Ord, Structural)]
pub enum Month {
    January,
    Feburary,
    March,
    April,
    May,
    June,
    July,
    August,
    September,
    October,
    November,
    December,
}

/// A calendar date. Ordered lexicographically by (year, month, day), which
/// coincides with chronological order for valid dates
/// (see [`lemma_date_le_iff_chronological`]).
#[derive(Debug, Copy, Clone, PartialEq, Eq, PartialOrd, Ord, Structural)]
pub struct Date {
    pub year: Year,
    pub month: Month,
    pub day: Day,
}

/// Whether year `y` is a leap year: divisible by 4 and (not divisible by 100
/// or divisible by 400).
pub open spec fn spec_is_leap(y: int) -> bool {
    y % 4 == 0 && (y % 100 != 0 || y % 400 == 0)
}

/// Number of days in year `y`: 366 in a leap year, 365 otherwise.
pub open spec fn spec_days_in_year(y: int) -> int {
    if spec_is_leap(y) {
        366
    } else {
        365
    }
}

/// 0-indexed ordinal of a month (January is 0).
pub open spec fn spec_ord0(m: Month) -> int {
    match m {
        Month::January => 0,
        Month::Feburary => 1,
        Month::March => 2,
        Month::April => 3,
        Month::May => 4,
        Month::June => 5,
        Month::July => 6,
        Month::August => 7,
        Month::September => 8,
        Month::October => 9,
        Month::November => 10,
        Month::December => 11,
    }
}

/// The month with 0-indexed ordinal `i`, for `0 <= i < 12`.
pub open spec fn spec_month_from0(i: int) -> Month {
    if i == 0 {
        Month::January
    } else if i == 1 {
        Month::Feburary
    } else if i == 2 {
        Month::March
    } else if i == 3 {
        Month::April
    } else if i == 4 {
        Month::May
    } else if i == 5 {
        Month::June
    } else if i == 6 {
        Month::July
    } else if i == 7 {
        Month::August
    } else if i == 8 {
        Month::September
    } else if i == 9 {
        Month::October
    } else if i == 10 {
        Month::November
    } else {
        Month::December
    }
}

/// Number of days in month `m` of year `y` (February has 29 in a leap year).
pub open spec fn spec_days_in_month(m: Month, y: int) -> int {
    match m {
        Month::January => 31,
        Month::Feburary => if spec_is_leap(y) {
            29
        } else {
            28
        },
        Month::March => 31,
        Month::April => 30,
        Month::May => 31,
        Month::June => 30,
        Month::July => 31,
        Month::August => 31,
        Month::September => 30,
        Month::October => 31,
        Month::November => 30,
        Month::December => 31,
    }
}

/// Total number of days in the months of year `y` strictly before month `m`.
pub open spec fn spec_days_before(m: Month, y: int) -> int {
    let f: int = if spec_is_leap(y) {
        29
    } else {
        28
    };
    match m {
        Month::January => 0,
        Month::Feburary => 31,
        Month::March => 31 + f,
        Month::April => 62 + f,
        Month::May => 92 + f,
        Month::June => 123 + f,
        Month::July => 153 + f,
        Month::August => 184 + f,
        Month::September => 215 + f,
        Month::October => 245 + f,
        Month::November => 276 + f,
        Month::December => 306 + f,
    }
}

/// 1-indexed day-of-year of a date: the days of all months strictly before
/// its month, plus its day-of-month. Defined for any day-of-month value, even
/// one past the month's actual length (lenient accumulation).
pub open spec fn spec_day_of_year(d: Date) -> int {
    spec_days_before(d.month, d.year.0 as int) + d.day.0
}

/// The month that contains day-of-year `doy` of year `y`, for
/// `1 <= doy <= spec_days_in_year(y)`. Values at or below 0 fall into
/// January; the caller clamps values above the year's length.
pub open spec fn spec_month_of_doy(doy: int, y: int) -> Month {
    let f: int = if spec_is_leap(y) {
        29
    } else {
        28
    };
    if doy <= 31 {
        Month::January
    } else if doy <= 31 + f {
        Month::Feburary
    } else if doy <= 62 + f {
        Month::March
    } else if doy <= 92 + f {
        Month::April
    } else if doy <= 123 + f {
        Month::May
    } else if doy <= 153 + f {
        Month::June
    } else if doy <= 184 + f {
        Month::July
    } else if doy <= 215 + f {
        Month::August
    } else if doy <= 245 + f {
        Month::September
    } else if doy <= 276 + f {
        Month::October
    } else if doy <= 306 + f {
        Month::November
    } else {
        Month::December
    }
}

/// The date of day-of-year `doy` in year `y`. A `doy` past the year's length
/// clamps to December 31; a `doy` of 0 yields January 0 (lenient, mirroring
/// the unvalidated `Day`).
pub open spec fn spec_doy_to_date(doy: int, y: Year) -> Date {
    if doy > spec_days_in_year(y.0 as int) {
        Date { year: y, month: Month::December, day: Day(31) }
    } else {
        let m = spec_month_of_doy(doy, y.0 as int);
        Date { year: y, month: m, day: Day((doy - spec_days_before(m, y.0 as int)) as u8) }
    }
}

/// A date whose day-of-month lies within its month's actual length.
pub open spec fn spec_date_valid(d: Date) -> bool {
    1 <= d.day.0 <= spec_days_in_month(d.month, d.year.0 as int)
}

/// Lexicographic (chronological) order on dates.
pub open spec fn spec_date_le(a: Date, b: Date) -> bool {
    a.year.0 < b.year.0 || (a.year.0 == b.year.0 && (spec_ord0(a.month) < spec_ord0(b.month)
        || (a.month == b.month && a.day.0 <= b.day.0)))
}

/// Strict lexicographic (chronological) order on dates.
pub open spec fn spec_date_lt(a: Date, b: Date) -> bool {
    a.year.0 < b.year.0 || (a.year.0 == b.year.0 && (spec_ord0(a.month) < spec_ord0(b.month)
        || (a.month == b.month && a.day.0 < b.day.0)))
}

/// Day-of-year produced from a pre-scaled progress value:
/// `min(q + 1, spec_days_in_year(y))`, never exceeding the year's length.
pub open spec fn spec_from_scaled(q: int, y: int) -> int {
    if q + 1 > spec_days_in_year(y) {
        spec_days_in_year(y)
    } else {
        q + 1
    }
}

impl Year {
    pub fn is_leap_year(&self) -> (r: bool)
        ensures
            r == spec_is_leap(self.0 as int),
    {
        if self.0 % 4 != 0 {
            false
        } else if self.0 % 100 != 0 {
            true
        } else if self.0 % 400 != 0 {
            false
        } else {
            true
        }
    }

    pub fn get_num_days(&self) -> (r: u16)
        ensures
            r == spec_days_in_year(self.0 as int),
    {
        if self.is_leap_year() {
            366
        } else {
            365
        }
    }

    pub fn to_ymd(self, doy: DayOfYear) -> (d: Date)
        ensures
            d == spec_doy_to_date(doy.0 as int, self),
    {
        day_of_year_to_ymd(doy, self)
    }
}

impl Month {
    pub fn ordinal0(&self) -> (r: u8)
        ensures
            r == spec_ord0(*self),
    {
        match self {
            Month::January => 0,
            Month::Feburary => 1,
            Month::March => 2,
            Month::April => 3,
            Month::May => 4,
            Month::June => 5,
            Month::July => 6,
            Month::August => 7,
            Month::September => 8,
            Month::October => 9,
            Month::November => 10,
            Month::December => 11,
        }
    }

    pub fn ordinal1(&self) -> (r: u8)
        ensures
            r == spec_ord0(*self) + 1,
    {
        match self {
            Month::January => 1,
            Month::Feburary => 2,
            Month::March => 3,
            Month::April => 4,
            Month::May => 5,
            Month::June => 6,
            Month::July => 7,
            Month::August => 8,
            Month::September => 9,
            Month::October => 10,
            Month::November => 11,
            Month::December => 12,
        }
    }

    /// The month with 0-indexed ordinal `month0`, or `None` past 11.
    pub fn from0(month0: u64) -> (r: Option<Month>)
        ensures
            month0 < 12 ==> r == Some(spec_month_from0(month0 as int)),
            month0 >= 12 ==> r is None,
    {
        match month0 {
            0 => Some(Month::January),
            1 => Some(Month::Feburary),
            2 => Some(Month::March),
            3 => Some(Month::April),
            4 => Some(Month::May),
            5 => Some(Month::June),
            6 => Some(Month::July),
            7 => Some(Month::August),
            8 => Some(Month::September),
            9 => Some(Month::October),
            10 => Some(Month::November),
            11 => Some(Month::December),
            _ => None,
        }
    }

    /// The month with 1-indexed ordinal `month1`, or `None` outside 1..=12.
    pub fn from1(month1: u64) -> (r: Option<Month>)
        ensures
            1 <= month1 <= 12 ==> r == Some(spec_month_from0(month1 - 1)),
            !(1 <= month1 <= 12) ==> r is None,
    {
        match month1 {
            1 => Some(Month::January),
            2 => Some(Month::Feburary),
            3 => Some(Month::March),
            4 => Some(Month::April),
            5 => Some(Month::May),
            6 => Some(Month::June),
            7 => Some(Month::July),
            8 => Some(Month::August),
            9 => Some(Month::September),
            10 => Some(Month::October),
            11 => Some(Month::November),
            12 => Some(Month::December),
            _ => None,
        }
    }

    pub fn num_days(&self, year: Year) -> (r: u8)
        ensures
            r == spec_days_in_month(*self, year.0 as int),
    {
        match self {
            Month::January => 31,
            Month::Feburary => if year.is_leap_year() {
                29
            } else {
                28
            },
            Month::March => 31,
            Month::April => 30,
            Month::May => 31,
            Month::June => 30,
            Month::July => 31,
            Month::August => 31,
            Month::September => 30,
            Month::October => 31,
            Month::November => 30,
            Month::December => 31,
        }
    }

    /// All twelve months in calendar order.
    pub fn all_months() -> (r: Vec<Month>)
        ensures
            r@.len() == 12,
            forall|i: int| 0 <= i < 12 ==> r@[i] == spec_month_from0(i),
    {
        let mut v: Vec<Month> = Vec::new();
        v.push(Month::January);
        v.push(Month::Feburary);
        v.push(Month::March);
        v.push(Month::April);
        v.push(Month::May);
        v.push(Month::June);
        v.push(Month::July);
        v.push(Month::August);
        v.push(Month::September);
        v.push(Month::October);
        v.push(Month::November);
        v.push(Month::December);
        v
    }
}

impl Date {
    pub fn new(year: Year, month: Month, day: Day) -> (d: Date)
        ensures
            d == (Date { year, month, day }),
    {
        Date { year, month, day }
    }

    pub fn get_day_of_year(self) -> (r: DayOfYear)
        ensures
            r.0 == spec_day_of_year(self),
    {
        ymd_to_day_of_year(self)
    }
}

impl DayOfYear {
    pub fn to_ymd(self, year: Year) -> (d: Date)
        ensures
            d == spec_doy_to_date(self.0 as int, year),
    {
        day_of_year_to_ymd(self, year)
    }

    /// Day-of-year from a pre-scaled progress value `q = floor(n * p)`, where
    /// `n` is the year's number of days and `p` a clamped progress fraction
    /// in [0, 1]: yields `q + 1`, clamped back down to the year's length.
    pub fn from_scaled_progress(year: Year, q: u16) -> (r: DayOfYear)
        ensures
            r.0 == spec_from_scaled(q as int, year.0 as int),
    {
        let n = year.get_num_days();
        if q >= n {
            DayOfYear(n)
        } else {
            DayOfYear(q + 1)
        }
    }
}

/// Walks the months of `year`, consuming `doy` until the remainder fits in a
/// month; past the year's end, clamps to December 31.
fn day_of_year_to_ymd(doy: DayOfYear, year: Year) -> (d: Date)
    ensures
        d == spec_doy_to_date(doy.0 as int, year),
{
    let f: u16 = if year.is_leap_year() {
        29
    } else {
        28
    };
    let v = doy.0;
    if v > 337 + f {
        Date { year, month: Month::December, day: Day(31) }
    } else if v <= 31 {
        Date { year, month: Month::January, day: Day(v as u8) }
    } else if v <= 31 + f {
        Date { year, month: Month::Feburary, day: Day((v - 31) as u8) }
    } else if v <= 62 + f {
        Date { year, month: Month::March, day: Day((v - 31 - f) as u8) }
    } else if v <= 92 + f {
        Date { year, month: Month::April, day: Day((v - 62 - f) as u8) }
    } else if v <= 123 + f {
        Date { year, month: Month::May, day: Day((v - 92 - f) as u8) }
    } else if v <= 153 + f {
        Date { year, month: Month::June, day: Day((v - 123 - f) as u8) }
    } else if v <= 184 + f {
        Date { year, month: Month::July, day: Day((v - 153 - f) as u8) }
    } else if v <= 215 + f {
        Date { year, month: Month::August, day: Day((v - 184 - f) as u8) }
    } else if v <= 245 + f {
        Date { year, month: Month::September, day: Day((v - 215 - f) as u8) }
    } else if v <= 276 + f {
        Date { year, month: Month::October, day: Day((v - 245 - f) as u8) }
    } else if v <= 306 + f {
        Date { year, month: Month::November, day: Day((v - 276 - f) as u8) }
    } else {
        Date { year, month: Month::December, day: Day((v - 306 - f) as u8) }
    }
}

/// Sums the lengths of the months strictly before `date.month`, plus the
/// day-of-month; no validation of the day against the month's length.
fn ymd_to_day_of_year(date: Date) -> (r: DayOfYear)
    ensures
        r.0 == spec_day_of_year(date),
{
    let f: u16 = if date.year.is_leap_year() {
        29
    } else {
        28
    };
    let before: u16 = match date.month {
        Month::January => 0,
        Month::Feburary => 31,
        Month::March => 31 + f,
        Month::April => 62 + f,
        Month::May => 92 + f,
        Month::June => 123 + f,
        Month::July => 153 + f,
        Month::August => 184 + f,
        Month::September => 215 + f,
        Month::October => 245 + f,
        Month::November => 276 + f,
        Month::December => 306 + f,
    };
    DayOfYear(before + date.day.0 as u16)
}

/// Relies on chrono's `Local::now`, `Datelike::year` and `Datelike::ordinal`:
/// the local calendar date today, as a year and a 1-based day of year that
/// chrono documents to lie in 1..=366. chrono panics when the system clock
/// reads before the Unix epoch or the local-timezone lookup fails; no
/// contract can speak of the environment, so that is assumed sane here.
#[verifier::external_body]
fn today_year_and_ordinal() -> (r: (i64, u16))
    ensures
        1 <= r.1 <= 366,
{
    let d = chrono::Local::now().date_naive();
    let y = chrono::Datelike::year(&d) as i64;
    let doy = chrono::Datelike::ordinal(&d) as u16;
    (y, doy)
}

/// The system's current local calendar date. Whatever the clock reports, the
/// result is a valid date (its day lies within its month).
pub fn current_date() -> (d: Date)
    ensures
        spec_date_valid(d),
{
    let (y, doy) = today_year_and_ordinal();
    let year = Year(y);
    let date = DayOfYear(doy).to_ymd(year);
    proof {
        if doy as int <= spec_days_in_year(y as int) {
            lemma_doy_to_date_to_doy(doy as int, year);
        }
    }
    date
}

/// Strict comparison of two dates in chronological (lexicographic) order.
pub fn date_lt(a: &Date, b: &Date) -> (r: bool)
    ensures
        r == spec_date_lt(*a, *b),
{
    if a.year.0 < b.year.0 {
        true
    } else if a.year.0 > b.year.0 {
        false
    } else {
        let oa = a.month.ordinal0();
        let ob = b.month.ordinal0();
        if oa < ob {
            true
        } else if oa > ob {
            false
        } else {
            a.day.0 < b.day.0
        }
    }
}

/// The date order is transitive across its weak and strict forms, and the
/// strict form is the irreflexive companion of the weak one.
pub proof fn lemma_date_order(a: Date, b: Date, c: Date)
    ensures
        spec_date_le(a, b) && spec_date_lt(b, c) ==> spec_date_lt(a, c),
        spec_date_lt(a, b) ==> spec_date_le(a, b),
        !spec_date_lt(a, b) ==> spec_date_le(b, a),
{
}

/// A year has 366 days exactly when the Gregorian leap rule selects it.
pub proof fn lemma_days_in_year_iff_leap(y: int)
    ensures
        spec_days_in_year(y) == 366 <==> (y % 4 == 0 && (y % 100 != 0 || y % 400 == 0)),
        spec_days_in_year(y) == 365 <==> !(y % 4 == 0 && (y % 100 != 0 || y % 400 == 0)),
{
}

/// Round trip from a valid date through its day-of-year and back: converting
/// `d` to a day-of-year and that day-of-year back to a date in the same year
/// returns `d` itself.
pub proof fn lemma_date_to_doy_to_date(d: Date)
    requires
        spec_date_valid(d),
    ensures
        spec_doy_to_date(spec_day_of_year(d), d.year) == d,
{
}

/// Round trip from a day-of-year through a date and back: for `k` within the
/// year's length, the date of day `k` is valid and its day-of-year is `k`.
pub proof fn lemma_doy_to_date_to_doy(k: int, y: Year)
    requires
        1 <= k <= spec_days_in_year(y.0 as int),
    ensures
        spec_date_valid(spec_doy_to_date(k, y)),
        spec_day_of_year(spec_doy_to_date(k, y)) == k,
        spec_doy_to_date(k, y).year == y,
{
}

/// The progress-through-year fraction `(doy - 1) / n` (with `n` the year's
/// fixed, positive length) is non-decreasing in the day-of-year: with a
/// common denominator, the fractions compare as their numerators do.
pub proof fn lemma_progress_through_year_monotone(d1: int, d2: int, y: int)
    requires
        1 <= d1 <= d2,
    ensures
        (d1 - 1) * spec_days_in_year(y) <= (d2 - 1) * spec_days_in_year(y),
        spec_days_in_year(y) > 0,
{
    broadcast use vstd::arithmetic::mul::lemma_mul_inequality;

}

/// Day-of-year from scaled progress is non-decreasing in the scaled value
/// and always lands within the year.
pub proof fn lemma_from_scaled_monotone(q1: int, q2: int, y: int)
    requires
        0 <= q1 <= q2,
    ensures
        spec_from_scaled(q1, y) <= spec_from_scaled(q2, y),
        1 <= spec_from_scaled(q1, y) <= spec_days_in_year(y),
{
}

/// For valid dates, the lexicographic order on (year, month, day) coincides
/// with chronological order: earlier year, or same year and earlier
/// day-of-year.
pub proof fn lemma_date_le_iff_chronological(a: Date, b: Date)
    requires
        spec_date_valid(a),
        spec_date_valid(b),
    ensures
        spec_date_le(a, b) <==> (a.year.0 < b.year.0 || (a.year.0 == b.year.0
            && spec_day_of_year(a) <= spec_day_of_year(b))),
{
}

/// Resolving (year, day-of-year) pairs to dates preserves order: the resolved
/// date does not increase when the year moves into the past, or the
/// day-of-year moves earlier within the same year.
pub proof fn lemma_resolution_preserves_order(k1: int, y1: Year, k2: int, y2: Year)
    requires
        1 <= k1 <= spec_days_in_year(y1.0 as int),
        1 <= k2 <= spec_days_in_year(y2.0 as int),
        y1.0 < y2.0 || (y1.0 == y2.0 && k1 <= k2),
    ensures
        spec_date_le(spec_doy_to_date(k1, y1), spec_doy_to_date(k2, y2)),
{
    lemma_doy_to_date_to_doy(k1, y1);
    lemma_doy_to_date_to_doy(k2, y2);
    lemma_date_le_iff_chronological(spec_doy_to_date(k1, y1), spec_doy_to_date(k2, y2));
}

} // verus!
