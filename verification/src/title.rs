//! Magnitude-scaled display labels for resolved dates: seven tiers from
//! "billions of years ago" down to a full day-month-year date, with "Now"
//! for the anchor date itself.

use vstd::prelude::*;
use vstd::string::StringExecFns;

use crate::date::{Date, Month};
use crate::numfmt::{abs_u64, spec_dec_rep, spec_digit_char, spec_grouped, u64_to_dec,
    u64_to_grouped};

verus! {

/// The English name of a month, as displayed in labels.
pub open spec fn spec_month_name(m: Month) -> Seq<char> {
    match m {
        Month::January => "January"@,
        Month::Feburary => "February"@,
        Month::March => "March"@,
        Month::April => "April"@,
        Month::May => "May"@,
        Month::June => "June"@,
        Month::July => "July"@,
        Month::August => "August"@,
        Month::September => "September"@,
        Month::October => "October"@,
        Month::November => "November"@,
        Month::December => "December"@,
    }
}

/// The display label for `date` relative to the anchor `now`, selected by the
/// first matching magnitude tier. Magnitudes in the "ago" tiers are rounded
/// half-up to the displayed precision and comma-grouped.
pub open spec fn spec_title(date: Date, now: Date) -> Seq<char> {
    let y = date.year.0 as int;
    let m = -y;
    if y <= -1000000000 {
        let tenths = (m + 50000000) / 100000000;
        spec_grouped((tenths / 10) as nat) + seq!['.', spec_digit_char(tenths % 10)]
            + " billion years ago"@
    } else if y <= -1000000 {
        let millions = (m + 500000) / 1000000;
        spec_grouped(millions as nat) + " million years ago"@
    } else if y <= -10000 {
        spec_grouped(m as nat) + " years ago"@
    } else if y < 0 {
        spec_dec_rep(m as nat) + " BC"@
    } else if y == 0 {
        "1 AD"@
    } else if y <= 1000 {
        spec_dec_rep(y as nat) + " AD"@
    } else if y <= 1900 {
        spec_dec_rep(y as nat)
    } else if y <= 2000 {
        spec_month_name(date.month) + seq![' '] + spec_dec_rep(y as nat)
    } else if date == now {
        "Now"@
    } else {
        spec_dec_rep(date.day.0 as nat) + seq![' '] + spec_month_name(date.month) + seq![' ']
            + spec_dec_rep(y as nat)
    }
}

/// The English name of a month.
pub fn month_name(m: Month) -> (r: &'static str)
    ensures
        r@ == spec_month_name(m),
{
    match m {
        Month::January => "January",
        Month::Feburary => "February",
        Month::March => "March",
        Month::April => "April",
        Month::May => "May",
        Month::June => "June",
        Month::July => "July",
        Month::August => "August",
        Month::September => "September",
        Month::October => "October",
        Month::November => "November",
        Month::December => "December",
    }
}

/// Builds the display label for `date` relative to the anchor `now`.
pub fn title_for(date: Date, now: Date) -> (t: String)
    ensures
        t@ == spec_title(date, now),
{
    let y = date.year.0;
    if y <= -1_000_000_000 {
        let m = abs_u64(y);
        let tenths = (m + 50_000_000) / 100_000_000;
        let mut s = u64_to_grouped(tenths / 10);
        s.append(".");
        let frac = u64_to_dec(tenths % 10);
        s.append(frac.as_str());
        s.append(" billion years ago");
        proof {
            reveal_strlit(".");
            assert(s@ =~= spec_title(date, now));
        }
        s
    } else if y <= -1_000_000 {
        let m = abs_u64(y);
        let millions = (m + 500_000) / 1_000_000;
        let mut s = u64_to_grouped(millions);
        s.append(" million years ago");
        proof {
            assert(s@ =~= spec_title(date, now));
        }
        s
    } else if y <= -10_000 {
        let mut s = u64_to_grouped(abs_u64(y));
        s.append(" years ago");
        proof {
            assert(s@ =~= spec_title(date, now));
        }
        s
    } else if y < 0 {
        let mut s = u64_to_dec(abs_u64(y));
        s.append(" BC");
        proof {
            assert(s@ =~= spec_title(date, now));
        }
        s
    } else if y == 0 {
        String::from_str("1 AD")
    } else if y <= 1000 {
        let mut s = u64_to_dec(y as u64);
        s.append(" AD");
        proof {
            assert(s@ =~= spec_title(date, now));
        }
        s
    } else if y <= 1900 {
        u64_to_dec(y as u64)
    } else if y <= 2000 {
        let mut s = String::from_str(month_name(date.month));
        s.append(" ");
        let ys = u64_to_dec(y as u64);
        s.append(ys.as_str());
        proof {
            reveal_strlit(" ");
            assert(s@ =~= spec_title(date, now));
        }
        s
    } else if date == now {
        String::from_str("Now")
    } else {
        let mut s = u64_to_dec(date.day.0 as u64);
        s.append(" ");
        s.append(month_name(date.month));
        s.append(" ");
        let ys = u64_to_dec(y as u64);
        s.append(ys.as_str());
        proof {
            reveal_strlit(" ");
            assert(s@ =~= spec_title(date, now));
        }
        s
    }
}

} // verus!
