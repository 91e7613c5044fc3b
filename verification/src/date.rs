//! Calendar dates as plain year/month/day numbers, with parsing from the
//! `YYYY-MM-DD` prefix of a timestamp string and rendering back to it.

use vstd::prelude::*;
use crate::digits::digit_char;

verus! {

/// A calendar date with no time-of-day component.
#[derive(Clone, Copy, PartialEq, Eq, Structural, Debug)]
pub struct Date {
    pub year: u32,
    pub month: u32,
    pub day: u32,
}

pub open spec fn is_leap_year(y: int) -> bool {
    y % 4 == 0 && (y % 100 != 0 || y % 400 == 0)
}

pub open spec fn days_in_month(y: int, m: int) -> int {
    if m == 2 {
        if is_leap_year(y) {
            29
        } else {
            28
        }
    } else if m == 4 || m == 6 || m == 9 || m == 11 {
        30
    } else {
        31
    }
}

pub open spec fn is_digit(c: char) -> bool {
    48 <= c as int <= 57
}

pub open spec fn digit_val(c: char) -> int {
    c as int - 48
}

impl Date {
    /// A real calendar date whose year has at most four digits.
    pub open spec fn valid(self) -> bool {
        self.year <= 9999 && 1 <= self.month <= 12 && 1 <= self.day <= days_in_month(
            self.year as int,
            self.month as int,
        )
    }

    /// Chronological order: year, then month, then day.
    pub open spec fn spec_le(self, other: Date) -> bool {
        if self.year != other.year {
            self.year < other.year
        } else if self.month != other.month {
            self.month < other.month
        } else {
            self.day <= other.day
        }
    }

    /// The date `year`-`month`-`day` if it names a real calendar day.
    pub fn from_ymd(year: u32, month: u32, day: u32) -> (r: Option<Date>)
        ensures
            r == (if (Date { year, month, day }).valid() {
                Some(Date { year, month, day })
            } else {
                None::<Date>
            }),
    {
        if year <= 9999 && 1 <= month && month <= 12 && 1 <= day && day <= days_in_month_exec(
            year,
            month,
        ) {
            Some(Date { year, month, day })
        } else {
            None
        }
    }

    /// Whether this names a real calendar day (executable counterpart of
    /// `valid`).
    pub fn is_valid(&self) -> (b: bool)
        ensures
            b == self.valid(),
    {
        self.year <= 9999 && 1 <= self.month && self.month <= 12 && 1 <= self.day && self.day
            <= days_in_month_exec(self.year, self.month)
    }

    pub fn is_on_or_before(&self, other: &Date) -> (b: bool)
        ensures
            b == self.spec_le(*other),
    {
        if self.year != other.year {
            self.year < other.year
        } else if self.month != other.month {
            self.month < other.month
        } else {
            self.day <= other.day
        }
    }
}

fn days_in_month_exec(y: u32, m: u32) -> (d: u32)
    requires
        1 <= m <= 12,
    ensures
        d == days_in_month(y as int, m as int),
{
    if m == 2 {
        if y % 4 == 0 && (y % 100 != 0 || y % 400 == 0) {
            29
        } else {
            28
        }
    } else if m == 4 || m == 6 || m == 9 || m == 11 {
        30
    } else {
        31
    }
}

/// The ten-character `YYYY-MM-DD` rendering of a valid date.
pub open spec fn date_chars(d: Date) -> Seq<char> {
    seq![
        digit_char(d.year as int / 1000),
        digit_char((d.year as int / 100) % 10),
        digit_char((d.year as int / 10) % 10),
        digit_char(d.year as int % 10),
        '-',
        digit_char(d.month as int / 10),
        digit_char(d.month as int % 10),
        '-',
        digit_char(d.day as int / 10),
        digit_char(d.day as int % 10),
    ]
}

/// What parsing the `YYYY-MM-DD` prefix of `s` yields: the date when the
/// first ten characters are four digits, a dash, two digits, a dash and two
/// digits naming a real calendar day, and nothing otherwise.
pub open spec fn spec_parse_date(s: Seq<char>) -> Option<Date> {
    if s.len() < 10 {
        None
    } else if !(is_digit(s[0]) && is_digit(s[1]) && is_digit(s[2]) && is_digit(s[3]) && s[4] == '-'
        && is_digit(s[5]) && is_digit(s[6]) && s[7] == '-' && is_digit(s[8]) && is_digit(s[9])) {
        None
    } else {
        let d = Date {
            year: (digit_val(s[0]) * 1000 + digit_val(s[1]) * 100 + digit_val(s[2]) * 10
                + digit_val(s[3])) as u32,
            month: (digit_val(s[5]) * 10 + digit_val(s[6])) as u32,
            day: (digit_val(s[8]) * 10 + digit_val(s[9])) as u32,
        };
        if d.valid() {
            Some(d)
        } else {
            None
        }
    }
}

fn digit_of(c: char) -> (r: Option<u32>)
    ensures
        r == (if is_digit(c) {
            Some(digit_val(c) as u32)
        } else {
            None::<u32>
        }),
{
    let v = c as u32;
    if 48 <= v && v <= 57 {
        Some(v - 48)
    } else {
        None
    }
}

/// Parses the `YYYY-MM-DD` prefix of a timestamp string.
pub fn parse_date_prefix(s: &str) -> (r: Option<Date>)
    ensures
        r == spec_parse_date(s@),
        r is Some ==> r->0.valid(),
{
    let n = s.unicode_len();
    if n < 10 {
        return None;
    }
    let y3 = digit_of(s.get_char(0));
    let y2 = digit_of(s.get_char(1));
    let y1 = digit_of(s.get_char(2));
    let y0 = digit_of(s.get_char(3));
    let m1 = digit_of(s.get_char(5));
    let m0 = digit_of(s.get_char(6));
    let d1 = digit_of(s.get_char(8));
    let d0 = digit_of(s.get_char(9));
    if s.get_char(4) != '-' || s.get_char(7) != '-' {
        return None;
    }
    match (y3, y2, y1, y0, m1, m0, d1, d0) {
        (Some(y3), Some(y2), Some(y1), Some(y0), Some(m1), Some(m0), Some(d1), Some(d0)) => {
            let year = y3 * 1000 + y2 * 100 + y1 * 10 + y0;
            let month = m1 * 10 + m0;
            let day = d1 * 10 + d0;
            Date::from_ymd(year, month, day)
        },
        _ => None,
    }
}

} // verus!
