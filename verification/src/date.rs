//! Calendar dates in `YYYY-MM-DD` form.

use vstd::prelude::*;
use crate::text::{
    all_digits, digit_char, digits_val, lemma_digits_val_upper, parse_digits, trim, trimmed,
};

verus! {

/// Whether `y` is a leap year in the proleptic Gregorian calendar.
pub open spec fn is_leap_year(y: int) -> bool {
    y % 4 == 0 && (y % 100 != 0 || y % 400 == 0)
}

/// Number of days in the given month of the given year.
pub open spec fn days_in_month(y: int, m: int) -> int {
    if m == 1 || m == 3 || m == 5 || m == 7 || m == 8 || m == 10 || m == 12 {
        31
    } else if m == 4 || m == 6 || m == 9 || m == 11 {
        30
    } else if is_leap_year(y) {
        29
    } else {
        28
    }
}

/// Whether the triple is a real calendar date with a four-digit year.
pub open spec fn valid_ymd(y: int, m: int, d: int) -> bool {
    0 <= y <= 9999 && 1 <= m <= 12 && 1 <= d <= days_in_month(y, m)
}

/// A calendar date. Every value holds a real date with a four-digit year.
#[derive(Debug, Clone, Copy, PartialEq, Eq, Structural)]
pub struct Date {
    year: u32,
    month: u32,
    day: u32,
}

/// Two-digit zero-padded decimal rendering of `v`.
pub open spec fn pad2(v: int) -> Seq<char> {
    seq![digit_char(v / 10), digit_char(v % 10)]
}

/// Four-digit zero-padded decimal rendering of `v`.
pub open spec fn pad4(v: int) -> Seq<char> {
    seq![
        digit_char(v / 1000),
        digit_char((v / 100) % 10),
        digit_char((v / 10) % 10),
        digit_char(v % 10),
    ]
}

/// The ISO rendering `YYYY-MM-DD` of a date.
pub open spec fn date_chars(d: Date) -> Seq<char> {
    pad4(d.year_spec()) + seq!['-'] + pad2(d.month_spec()) + seq!['-'] + pad2(d.day_spec())
}

/// The year, month and day denoted by `s` after trimming, if `s` is a
/// well-formed `YYYY-MM-DD` rendering of a real date.
pub open spec fn ymd_of_chars(s: Seq<char>) -> Option<(int, int, int)> {
    let t = trimmed(s);
    if t.len() == 10 && t[4] == '-' && t[7] == '-'
        && all_digits(t.subrange(0, 4))
        && all_digits(t.subrange(5, 7))
        && all_digits(t.subrange(8, 10))
        && valid_ymd(
            digits_val(t.subrange(0, 4)),
            digits_val(t.subrange(5, 7)),
            digits_val(t.subrange(8, 10)),
        )
    {
        Some((
            digits_val(t.subrange(0, 4)),
            digits_val(t.subrange(5, 7)),
            digits_val(t.subrange(8, 10)),
        ))
    } else {
        None
    }
}

impl Date {
    #[verifier::type_invariant]
    spec fn type_inv(self) -> bool {
        valid_ymd(self.year as int, self.month as int, self.day as int)
    }

    /// The year.
    pub closed spec fn year_spec(self) -> int {
        self.year as int
    }

    /// The month, one-based.
    pub closed spec fn month_spec(self) -> int {
        self.month as int
    }

    /// The day of the month, one-based.
    pub closed spec fn day_spec(self) -> int {
        self.day as int
    }

    /// Every date is a real calendar date.
    pub fn check_valid(&self)
        ensures
            valid_ymd(self.year_spec(), self.month_spec(), self.day_spec()),
    {
        proof { use_type_invariant(self); }
    }

    /// Builds a date from a year, month and day.
    pub fn new(year: u32, month: u32, day: u32) -> (r: Option<Date>)
        ensures
            r is Some <==> valid_ymd(year as int, month as int, day as int),
            r matches Some(d) ==> d.year_spec() == year
                && d.month_spec() == month && d.day_spec() == day,
    {
        let ok = year <= 9999 && 1 <= month && month <= 12 && 1 <= day
            && day <= days_in_month_exec(year, month);
        if ok {
            Some(Date { year, month, day })
        } else {
            None
        }
    }

    /// The year.
    pub fn year(&self) -> (r: u32)
        ensures
            r == self.year_spec(),
    {
        self.year
    }

    /// The month, one-based.
    pub fn month(&self) -> (r: u32)
        ensures
            r == self.month_spec(),
    {
        self.month
    }

    /// The day of the month, one-based.
    pub fn day(&self) -> (r: u32)
        ensures
            r == self.day_spec(),
    {
        self.day
    }

    /// The year, month and day as a triple.
    pub open spec fn ymd_spec(self) -> (int, int, int) {
        (self.year_spec(), self.month_spec(), self.day_spec())
    }

    /// Parses a (possibly surrounded by whitespace) `YYYY-MM-DD` string.
    pub fn parse(s: &str) -> (r: Option<Date>)
        ensures
            r is Some <==> ymd_of_chars(s@) is Some,
            r matches Some(d) ==> ymd_of_chars(s@) == Some(d.ymd_spec()),
    {
        let t = trim(s);
        let ghost tv = t@;
        if t.unicode_len() != 10 {
            return None;
        }
        if t.get_char(4) != '-' || t.get_char(7) != '-' {
            return None;
        }
        let y = parse_digits(t, 0, 4, 9999);
        let m = parse_digits(t, 5, 7, 99);
        let d = parse_digits(t, 8, 10, 99);
        proof {
            if all_digits(tv.subrange(0, 4)) {
                lemma_digits_val_upper(tv.subrange(0, 4), 10000);
            }
            if all_digits(tv.subrange(5, 7)) {
                lemma_digits_val_upper(tv.subrange(5, 7), 100);
            }
            if all_digits(tv.subrange(8, 10)) {
                lemma_digits_val_upper(tv.subrange(8, 10), 100);
            }
        }
        match (y, m, d) {
            (Some(y), Some(m), Some(d)) => {
                let year = y as u32;
                let month = m as u32;
                let day = d as u32;
                if 1 <= month && month <= 12 && 1 <= day
                    && day <= days_in_month_exec(year, month)
                {
                    Some(Date { year, month, day })
                } else {
                    None
                }
            },
            _ => None,
        }
    }

    /// Renders the date as `YYYY-MM-DD`.
    pub fn to_chars(&self) -> (r: String)
        ensures
            r@ == date_chars(*self),
    {
        proof { use_type_invariant(self); }
        let mut out = String::new();
        crate::text::push_digit(&mut out, (self.year / 1000) as u8);
        crate::text::push_digit(&mut out, ((self.year / 100) % 10) as u8);
        crate::text::push_digit(&mut out, ((self.year / 10) % 10) as u8);
        crate::text::push_digit(&mut out, (self.year % 10) as u8);
        push_dash(&mut out);
        crate::text::push_digit(&mut out, (self.month / 10) as u8);
        crate::text::push_digit(&mut out, (self.month % 10) as u8);
        push_dash(&mut out);
        crate::text::push_digit(&mut out, (self.day / 10) as u8);
        crate::text::push_digit(&mut out, (self.day % 10) as u8);
        proof {
            assert(out@ =~= date_chars(*self));
        }
        out
    }
}

/// Number of days in the given month (executable form).
pub fn days_in_month_exec(year: u32, month: u32) -> (r: u32)
    ensures
        r == days_in_month(year as int, month as int),
{
    if month == 1 || month == 3 || month == 5 || month == 7 || month == 8
        || month == 10 || month == 12
    {
        31
    } else if month == 4 || month == 6 || month == 9 || month == 11 {
        30
    } else if year % 4 == 0 && (year % 100 != 0 || year % 400 == 0) {
        29
    } else {
        28
    }
}

/// Appends `-` to `out`.
fn push_dash(out: &mut String)
    ensures
        final(out)@ == old(out)@ + seq!['-'],
{
    proof {
        reveal_strlit("-");
        assert("-"@ =~= seq!['-']);
    }
    out.append("-");
}

} // verus!
