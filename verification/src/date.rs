//! Calendar dates: a plain year/month/day model of the proleptic Gregorian
//! calendar with day-number arithmetic, `DD-MM-YYYY` parsing and ISO
//! formatting, as the chart's simulated-day walker needs them.

use vstd::prelude::*;
use vstd::arithmetic::div_mod::{
    lemma_fundamental_div_mod, lemma_fundamental_div_mod_converse_div,
    lemma_fundamental_div_mod_converse_mod,
};
use crate::digits::{padded_str, push_padded};

verus! {

/// A calendar date. `year` runs from 0 to 9999 for valid dates; the walker may
/// step one day past the last representable date, which yields the sentinel
/// `year == 10000`.
#[derive(Clone, Copy, PartialEq, Eq, Structural, Debug)]
pub struct Date {
    pub year: u16,
    pub month: u8,
    pub day: u8,
}

pub open spec fn is_leap_year(y: int) -> bool {
    (y % 4 == 0 && y % 100 != 0) || y % 400 == 0
}

pub open spec fn spec_days_in_month(y: int, m: int) -> int {
    if m == 2 {
        if is_leap_year(y) {
            29
        } else {
            28
        }
    } else if m == 4 || m == 6 || m == 9 || m == 11 {
        30
    } else {
        31
    }
}

/// Days in the months of a non-leap year that precede month `m`.
pub open spec fn days_before_month(m: int) -> int {
    if m <= 1 {
        0
    } else if m == 2 {
        31
    } else if m == 3 {
        59
    } else if m == 4 {
        90
    } else if m == 5 {
        120
    } else if m == 6 {
        151
    } else if m == 7 {
        181
    } else if m == 8 {
        212
    } else if m == 9 {
        243
    } else if m == 10 {
        273
    } else if m == 11 {
        304
    } else {
        334
    }
}

/// The number of leap years among years 0 through `y - 1`
/// (written with ceiling divisions; year 0 counts as a leap year).
pub open spec fn leap_years_before(y: int) -> int {
    (y + 3) / 4 - (y + 99) / 100 + (y + 399) / 400
}

pub open spec fn valid_date(d: Date) -> bool {
    &&& d.year <= 9999
    &&& 1 <= d.month <= 12
    &&& 1 <= d.day <= spec_days_in_month(d.year as int, d.month as int)
}

/// The sentinel reached by stepping one day past 31-12-9999.
pub open spec fn boundary_date() -> Date {
    Date { year: 10000, month: 1, day: 1 }
}

/// The position of a date in the day count that starts at zero on 01-01-0000.
/// Consecutive calendar days have consecutive stamps.
pub open spec fn day_stamp(d: Date) -> int {
    365 * (d.year as int) + leap_years_before(d.year as int) + days_before_month(d.month as int)
        + (if d.month > 2 && is_leap_year(d.year as int) {
        1int
    } else {
        0int
    }) + d.day as int - 1
}

/// The stamp of 31-12-9999, the largest valid date.
pub open spec fn max_day_stamp() -> int {
    3652424
}

/// Shifting the dividend by the divisor steps a floor division by one, and
/// shifting it by one less steps it by one exactly when it does not divide.
proof fn lemma_ceil_step(y: int, d: int)
    requires
        y >= 0,
        d >= 1,
    ensures
        (y + d) / d == y / d + 1,
        (y + d - 1) / d == y / d + (if y % d == 0 {
            0int
        } else {
            1int
        }),
{
    lemma_fundamental_div_mod(y, d);
    let q = y / d;
    let r = y % d;
    assert(d * q == q * d) by (nonlinear_arith);
    assert(d * (q + 1) == q * d + d) by (nonlinear_arith);
    assert((q + 1) * d == q * d + d) by (nonlinear_arith);
    if r == 0 {
        lemma_fundamental_div_mod_converse_div(y + d - 1, d, q, d - 1);
        lemma_fundamental_div_mod_converse_div(y + d, d, q + 1, 0);
    } else {
        lemma_fundamental_div_mod_converse_div(y + d - 1, d, q + 1, r - 1);
        lemma_fundamental_div_mod_converse_div(y + d, d, q + 1, r);
    }
}

/// A multiple of 400 is a multiple of 100 and of 4; a multiple of 100 is a
/// multiple of 4.
proof fn lemma_divisibility_chain(y: int)
    requires
        y >= 0,
    ensures
        y % 400 == 0 ==> y % 100 == 0 && y % 4 == 0,
        y % 100 == 0 ==> y % 4 == 0,
{
    if y % 400 == 0 {
        lemma_fundamental_div_mod(y, 400);
        let q = y / 400;
        assert(y == 100 * (4 * q) + 0) by (nonlinear_arith)
            requires y == 400 * q + 0;
        lemma_fundamental_div_mod_converse_mod(y, 100, 4 * q, 0);
        assert(y == 4 * (100 * q) + 0) by (nonlinear_arith)
            requires y == 400 * q + 0;
        lemma_fundamental_div_mod_converse_mod(y, 4, 100 * q, 0);
    }
    if y % 100 == 0 {
        lemma_fundamental_div_mod(y, 100);
        let q = y / 100;
        assert(y == 4 * (25 * q) + 0) by (nonlinear_arith)
            requires y == 100 * q + 0;
        lemma_fundamental_div_mod_converse_mod(y, 4, 25 * q, 0);
    }
}

/// Passing from year `y` to year `y + 1` adds one leap year to the count
/// exactly when `y` itself is a leap year.
pub proof fn lemma_leap_increment(y: int)
    requires
        y >= 0,
    ensures
        leap_years_before(y + 1) - leap_years_before(y) == if is_leap_year(y) {
            1int
        } else {
            0int
        },
{
    lemma_ceil_step(y, 4);
    lemma_ceil_step(y, 100);
    lemma_ceil_step(y, 400);
    lemma_divisibility_chain(y);
}

/// The leap-year count never decreases and grows at most one per year.
pub proof fn lemma_leaps_before_range(a: int, b: int)
    requires
        0 <= a <= b,
    ensures
        0 <= leap_years_before(b) - leap_years_before(a) <= b - a,
    decreases b - a,
{
    if a < b {
        lemma_leaps_before_range(a, b - 1);
        lemma_leap_increment(b - 1);
    }
}

/// Every valid date's stamp lies between 0 and the stamp of 31-12-9999.
pub proof fn lemma_stamp_bounds(d: Date)
    requires
        valid_date(d),
    ensures
        0 <= day_stamp(d) <= max_day_stamp(),
{
    let y = d.year as int;
    assert(leap_years_before(0) == 0);
    lemma_leaps_before_range(0, y);
    lemma_leaps_before_range(y, 9999);
    assert(leap_years_before(9999) == 2425);
    if y == 9999 {
        assert(!is_leap_year(9999));
    }
}

/// The successor of a date, as a calendar function: the next day of the
/// month, else the first day of the next month, else New Year.
pub open spec fn spec_next_day(d: Date) -> Date {
    if d.day < spec_days_in_month(d.year as int, d.month as int) {
        Date { year: d.year, month: d.month, day: (d.day + 1) as u8 }
    } else if d.month < 12 {
        Date { year: d.year, month: (d.month + 1) as u8, day: 1 }
    } else {
        Date { year: (d.year + 1) as u16, month: 1, day: 1 }
    }
}

/// The date `k` days after `d`.
pub open spec fn date_plus(d: Date, k: nat) -> Date
    decreases k,
{
    if k == 0 {
        d
    } else {
        spec_next_day(date_plus(d, (k - 1) as nat))
    }
}

impl Date {
    /// The date's day number (its stamp), computed directly from the formula.
    pub fn day_number(&self) -> (n: i64)
        requires
            valid_date(*self) || *self == boundary_date(),
        ensures
            n == day_stamp(*self),
    {
        let y = self.year as i64;
        let leaps = (y + 3) / 4 - (y + 99) / 100 + (y + 399) / 400;
        let before: i64 = match self.month {
            1 => 0,
            2 => 31,
            3 => 59,
            4 => 90,
            5 => 120,
            6 => 151,
            7 => 181,
            8 => 212,
            9 => 243,
            10 => 273,
            11 => 304,
            _ => 334,
        };
        let leap_adjust: i64 = if self.month > 2 && (y % 4 == 0 && y % 100 != 0 || y % 400 == 0) {
            1
        } else {
            0
        };
        365 * y + leaps + before + leap_adjust + self.day as i64 - 1
    }

    /// How many days the date's month has.
    pub fn days_in_month(&self) -> (n: u8)
        requires
            1 <= self.month <= 12,
        ensures
            n == spec_days_in_month(self.year as int, self.month as int),
    {
        if self.month == 2 {
            let y = self.year as u64;
            if y % 4 == 0 && y % 100 != 0 || y % 400 == 0 {
                29
            } else {
                28
            }
        } else if self.month == 4 || self.month == 6 || self.month == 9 || self.month == 11 {
            30
        } else {
            31
        }
    }

    /// The next calendar day. Stepping past the last valid date yields the
    /// sentinel `01-01-10000`, whose stamp still follows on.
    pub fn next_day(&self) -> (r: Date)
        requires
            valid_date(*self),
        ensures
            r == spec_next_day(*self),
            day_stamp(r) == day_stamp(*self) + 1,
            valid_date(r) || r == boundary_date(),
    {
        let dim = self.days_in_month();
        if self.day < dim {
            Date { year: self.year, month: self.month, day: self.day + 1 }
        } else if self.month < 12 {
            Date { year: self.year, month: self.month + 1, day: 1 }
        } else {
            let r = Date { year: self.year + 1, month: 1, day: 1 };
            proof {
                lemma_leap_increment(self.year as int);
            }
            r
        }
    }

    /// The date `k` days later. The range the walker covers never leaves
    /// the calendar by more than the one sentinel day.
    pub fn plus_days(&self, k: usize) -> (r: Date)
        requires
            valid_date(*self),
            day_stamp(*self) + k <= max_day_stamp() + 1,
        ensures
            r == date_plus(*self, k as nat),
            day_stamp(r) == day_stamp(*self) + k,
            valid_date(r) || r == boundary_date(),
    {
        let mut cur: Date = *self;
        let mut j: usize = 0;
        while j < k
            invariant
                0 <= j <= k,
                valid_date(*self),
                day_stamp(*self) + k <= max_day_stamp() + 1,
                cur == date_plus(*self, j as nat),
                day_stamp(cur) == day_stamp(*self) + j,
                valid_date(cur) || cur == boundary_date(),
            decreases k - j,
        {
            proof {
                assert(day_stamp(boundary_date()) == max_day_stamp() + 1);
                assert(valid_date(cur));
            }
            cur = cur.next_day();
            j = j + 1;
        }
        cur
    }

    /// The date in ISO `YYYY-MM-DD` form.
    pub fn iso_string(&self) -> (s: String)
        ensures
            s@ == spec_iso(*self),
    {
        let mut out = String::new();
        push_padded(self.year as u64, 4, &mut out);
        proof {
            reveal_strlit("-");
        }
        out.append("-");
        push_padded(self.month as u64, 2, &mut out);
        out.append("-");
        push_padded(self.day as u64, 2, &mut out);
        assert(out@ =~= spec_iso(*self));
        out
    }
}

/// A date rendered as `YYYY-MM-DD`, each field zero padded.
pub open spec fn spec_iso(d: Date) -> Seq<char> {
    padded_str(d.year as nat, 4) + seq!['-'] + padded_str(d.month as nat, 2) + seq!['-']
        + padded_str(d.day as nat, 2)
}

/// The digit value of a character, or -1 for a non-digit.
pub open spec fn spec_digit_val(c: char) -> int {
    if c == '0' {
        0
    } else if c == '1' {
        1
    } else if c == '2' {
        2
    } else if c == '3' {
        3
    } else if c == '4' {
        4
    } else if c == '5' {
        5
    } else if c == '6' {
        6
    } else if c == '7' {
        7
    } else if c == '8' {
        8
    } else if c == '9' {
        9
    } else {
        -1
    }
}

pub open spec fn is_digit(c: char) -> bool {
    spec_digit_val(c) >= 0
}

/// The digit value of a character, if it is one.
pub fn char_digit(c: char) -> (r: Option<u8>)
    ensures
        r is Some <==> is_digit(c),
        r is Some ==> r->0 == spec_digit_val(c),
{
    match c {
        '0' => Some(0),
        '1' => Some(1),
        '2' => Some(2),
        '3' => Some(3),
        '4' => Some(4),
        '5' => Some(5),
        '6' => Some(6),
        '7' => Some(7),
        '8' => Some(8),
        '9' => Some(9),
        _ => None,
    }
}

/// What `DD-MM-YYYY` text denotes: ten characters, digits in the day, month
/// and year fields, dashes between them, and a date that exists in the
/// calendar; anything else is malformed.
pub open spec fn spec_parse_date(s: Seq<char>) -> Option<Date> {
    if s.len() == 10 && is_digit(s[0]) && is_digit(s[1]) && s[2] == '-' && is_digit(s[3])
        && is_digit(s[4]) && s[5] == '-' && is_digit(s[6]) && is_digit(s[7]) && is_digit(s[8])
        && is_digit(s[9]) {
        let day = spec_digit_val(s[0]) * 10 + spec_digit_val(s[1]);
        let month = spec_digit_val(s[3]) * 10 + spec_digit_val(s[4]);
        let year = spec_digit_val(s[6]) * 1000 + spec_digit_val(s[7]) * 100 + spec_digit_val(s[8])
            * 10 + spec_digit_val(s[9]);
        let d = Date { year: year as u16, month: month as u8, day: day as u8 };
        if valid_date(d) {
            Some(d)
        } else {
            None
        }
    } else {
        None
    }
}

/// Parses `DD-MM-YYYY` text; a malformed field or a day that does not exist
/// in the calendar yields `None`.
pub fn parse_date(s: &str) -> (r: Option<Date>)
    ensures
        r == spec_parse_date(s@),
{
    proof {
        reveal_strlit("-");
    }
    if s.unicode_len() != 10 {
        return None;
    }
    let dash = "-".get_char(0);
    let c2 = s.get_char(2);
    let c5 = s.get_char(5);
    if c2 != dash || c5 != dash {
        return None;
    }
    let d0 = char_digit(s.get_char(0));
    let d1 = char_digit(s.get_char(1));
    let d3 = char_digit(s.get_char(3));
    let d4 = char_digit(s.get_char(4));
    let d6 = char_digit(s.get_char(6));
    let d7 = char_digit(s.get_char(7));
    let d8 = char_digit(s.get_char(8));
    let d9 = char_digit(s.get_char(9));
    match (d0, d1, d3, d4, d6, d7, d8, d9) {
        (
            Some(d0),
            Some(d1),
            Some(d3),
            Some(d4),
            Some(d6),
            Some(d7),
            Some(d8),
            Some(d9),
        ) => {
            let day = d0 * 10 + d1;
            let month = d3 * 10 + d4;
            let year = d6 as u16 * 1000 + d7 as u16 * 100 + d8 as u16 * 10 + d9 as u16;
            let date = Date { year, month, day };
            if 1 <= month && month <= 12 && 1 <= day && day <= date.days_in_month() {
                Some(date)
            } else {
                None
            }
        },
        _ => None,
    }
}

} // verus!
