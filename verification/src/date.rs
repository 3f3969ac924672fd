//! Plain-value calendar dates (proleptic Gregorian).
//!
//! The schedule builder and the membership change log only ever read a date's
//! ordering, its weekday and its neighbours, so a date is held as plain
//! year/month/day values with a verified conversion to an absolute day number.

use vstd::prelude::*;

verus! {

use vstd::arithmetic::div_mod::lemma_div_is_ordered_by_denominator;
use vstd::arithmetic::div_mod::lemma_fundamental_div_mod;
use vstd::arithmetic::div_mod::lemma_fundamental_div_mod_converse;
use vstd::string::StrSliceExecFns;

/// A calendar date.  Well-formed values (see [`Date::wf`]) are real days of
/// the proleptic Gregorian calendar, year 1 or later.
#[derive(Clone, Copy, Debug, PartialEq, Eq, Structural, Hash)]
pub struct Date {
    pub year: u32,
    pub month: u32,
    pub day: u32,
}

pub open spec fn is_leap_year(y: int) -> bool {
    y % 4 == 0 && (y % 100 != 0 || y % 400 == 0)
}

pub open spec fn spec_days_in_month(y: int, m: int) -> int {
    if m == 2 {
        if is_leap_year(y) {
            29
        } else {
            28
        }
    } else if m == 4 || m == 6 || m == 9 || m == 11 {
        30
    } else {
        31
    }
}

/// Days of year `y` that lie strictly before month `m`.
pub open spec fn days_before_month(y: int, m: int) -> int
    decreases m,
{
    if m <= 1 {
        0
    } else {
        days_before_month(y, m - 1) + spec_days_in_month(y, m - 1)
    }
}

/// Number of leap years among the years `1..y`.
pub open spec fn leap_days_before(y: int) -> int {
    (y - 1) / 4 - (y - 1) / 100 + (y - 1) / 400
}

/// Absolute day number of a date; 0001-01-01 is day 1, which is a Monday.
pub open spec fn day_index_of(y: int, m: int, d: int) -> int {
    365 * (y - 1) + leap_days_before(y) + days_before_month(y, m) + d
}

pub fn leap_year(year: u32) -> (b: bool)
    ensures
        b == is_leap_year(year as int),
{
    year % 4 == 0 && (year % 100 != 0 || year % 400 == 0)
}

pub fn days_in_month(year: u32, month: u32) -> (n: u32)
    ensures
        n == spec_days_in_month(year as int, month as int),
{
    if month == 2 {
        if leap_year(year) {
            29
        } else {
            28
        }
    } else if month == 4 || month == 6 || month == 9 || month == 11 {
        30
    } else {
        31
    }
}

proof fn lemma_days_before_month_bounds(y: int, m: int)
    requires
        1 <= m <= 13,
    ensures
        0 <= days_before_month(y, m) <= 31 * (m - 1),
    decreases m,
{
    if m > 1 {
        lemma_days_before_month_bounds(y, m - 1);
    }
}

proof fn lemma_leap_days_before_bounds(y: int)
    requires
        y >= 1,
    ensures
        0 <= leap_days_before(y) <= (y - 1) / 4,
{
    lemma_div_is_ordered_by_denominator(y - 1, 4, 100);
    lemma_div_is_ordered_by_denominator(y - 1, 100, 400);
    vstd::arithmetic::div_mod::lemma_div_pos_is_pos(y - 1, 400);
}

/// A well-formed date has an absolute day number of at least 1.
pub proof fn lemma_idx_positive(d: Date)
    requires
        d.wf(),
    ensures
        d.idx() >= 1,
{
    lemma_leap_days_before_bounds(d.year as int);
    lemma_days_before_month_bounds(d.year as int, d.month as int);
}

/// Stepping from `n` to `n - 1` changes `_ / k` by one exactly at multiples of `k`.
proof fn lemma_div_step(n: int, k: int)
    requires
        n >= 1,
        k >= 1,
    ensures
        n / k - (n - 1) / k == if n % k == 0 {
            1int
        } else {
            0int
        },
{
    let q = n / k;
    let r = n % k;
    lemma_fundamental_div_mod(n, k);
    if r == 0 {
        assert((q - 1) * k + (k - 1) == q * k - 1) by (nonlinear_arith);
        assert(k * q == q * k) by (nonlinear_arith);
        lemma_fundamental_div_mod_converse(n - 1, k, q - 1, k - 1);
    } else {
        lemma_fundamental_div_mod_converse(n - 1, k, q, r - 1);
    }
}

/// The leap-day count steps exactly on leap years.
proof fn lemma_leap_days_step(y: int)
    requires
        y >= 2,
    ensures
        leap_days_before(y) - leap_days_before(y - 1) == if is_leap_year(y - 1) {
            1int
        } else {
            0int
        },
{
    lemma_div_step(y - 1, 4);
    lemma_div_step(y - 1, 100);
    lemma_div_step(y - 1, 400);
    if (y - 1) % 400 == 0 {
        vstd::arithmetic::div_mod::lemma_mod_breakdown(y - 1, 100, 4);
        vstd::arithmetic::div_mod::lemma_mod_breakdown(y - 1, 4, 25);
    } else if (y - 1) % 100 == 0 {
        vstd::arithmetic::div_mod::lemma_mod_breakdown(y - 1, 4, 25);
    } else if (y - 1) % 4 == 0 {
    }
}

/// December 31 of year `y - 1` is the day before January 1 of year `y`.
proof fn lemma_year_rollover(y: int)
    requires
        y >= 2,
    ensures
        day_index_of(y, 1, 1) - 1 == day_index_of(y - 1, 12, 31),
{
    lemma_leap_days_step(y);
    assert(days_before_month(y - 1, 12) == 334 + if is_leap_year(y - 1) {
        1int
    } else {
        0int
    }) by {
        reveal_with_fuel(days_before_month, 13);
    }
}

/// Whether an absolute day number falls on a Saturday or a Sunday.
pub open spec fn is_weekend_index(n: int) -> bool {
    n % 7 == 6 || n % 7 == 0
}

pub open spec fn spec_is_digit(c: char) -> bool {
    48 <= c as int && c as int <= 57
}

pub open spec fn spec_digit_val(c: char) -> int {
    c as int - 48
}

/// What a well-formed `YYYY-MM-DD` text denotes: ten characters, digits and
/// dashes in place, and the three numbers a real calendar date.
pub open spec fn parse_iso_date_spec(s: Seq<char>) -> Option<Date> {
    if s.len() == 10 && spec_is_digit(s[0]) && spec_is_digit(s[1]) && spec_is_digit(s[2])
        && spec_is_digit(s[3]) && s[4] == '-' && spec_is_digit(s[5]) && spec_is_digit(s[6]) && s[7]
        == '-' && spec_is_digit(s[8]) && spec_is_digit(s[9]) {
        let y = 1000 * spec_digit_val(s[0]) + 100 * spec_digit_val(s[1]) + 10 * spec_digit_val(
            s[2],
        ) + spec_digit_val(s[3]);
        let m = 10 * spec_digit_val(s[5]) + spec_digit_val(s[6]);
        let d = 10 * spec_digit_val(s[8]) + spec_digit_val(s[9]);
        let date = Date { year: y as u32, month: m as u32, day: d as u32 };
        if date.wf() {
            Some(date)
        } else {
            None
        }
    } else {
        None
    }
}

/// Reads the digit at position `i`, if there is one.
fn read_digit(s: &str, i: usize) -> (r: Option<u32>)
    requires
        i < s@.len(),
    ensures
        match r {
            Some(v) => spec_is_digit(s@[i as int]) && v == spec_digit_val(s@[i as int]),
            None => !spec_is_digit(s@[i as int]),
        },
{
    let c = s.get_char(i);
    let u = c as u32;
    if 48 <= u && u <= 57 {
        Some(u - 48)
    } else {
        None
    }
}

/// Parses a `YYYY-MM-DD` text into the date it denotes.
pub fn parse_iso_date(s: &str) -> (r: Option<Date>)
    ensures
        r == parse_iso_date_spec(s@),
{
    if s.unicode_len() != 10 {
        return None;
    }
    let d0 = match read_digit(s, 0) {
        Some(v) => v,
        None => {
            return None;
        },
    };
    let d1 = match read_digit(s, 1) {
        Some(v) => v,
        None => {
            return None;
        },
    };
    let d2 = match read_digit(s, 2) {
        Some(v) => v,
        None => {
            return None;
        },
    };
    let d3 = match read_digit(s, 3) {
        Some(v) => v,
        None => {
            return None;
        },
    };
    if s.get_char(4) != '-' {
        return None;
    }
    let m0 = match read_digit(s, 5) {
        Some(v) => v,
        None => {
            return None;
        },
    };
    let m1 = match read_digit(s, 6) {
        Some(v) => v,
        None => {
            return None;
        },
    };
    if s.get_char(7) != '-' {
        return None;
    }
    let g0 = match read_digit(s, 8) {
        Some(v) => v,
        None => {
            return None;
        },
    };
    let g1 = match read_digit(s, 9) {
        Some(v) => v,
        None => {
            return None;
        },
    };
    let year = 1000 * d0 + 100 * d1 + 10 * d2 + d3;
    let month = 10 * m0 + m1;
    let day = 10 * g0 + g1;
    Date::from_ymd(year, month, day)
}

impl Date {
    /// The date denotes a real calendar day, year 1 or later.
    pub open spec fn wf(self) -> bool {
        &&& self.year >= 1
        &&& 1 <= self.month <= 12
        &&& 1 <= self.day <= spec_days_in_month(self.year as int, self.month as int)
    }

    /// Absolute day number; 0001-01-01 is day 1.
    pub open spec fn idx(self) -> int {
        day_index_of(self.year as int, self.month as int, self.day as int)
    }

    /// Saturdays and Sundays; day 1 (0001-01-01) is a Monday.
    pub open spec fn spec_is_weekend(self) -> bool {
        is_weekend_index(self.idx())
    }

    pub fn from_ymd(year: u32, month: u32, day: u32) -> (r: Option<Date>)
        ensures
            match r {
                Some(d) => d == (Date { year, month, day }) && d.wf(),
                None => !(Date { year, month, day }).wf(),
            },
    {
        if year >= 1 && 1 <= month && month <= 12 && 1 <= day && day <= days_in_month(
            year,
            month,
        ) {
            Some(Date { year, month, day })
        } else {
            None
        }
    }

    pub fn day_number(&self) -> (n: u64)
        requires
            self.wf(),
        ensures
            n == self.idx(),
    {
        let mut acc: u64 = 0;
        let mut m: u32 = 1;
        while m < self.month
            invariant
                self.wf(),
                1 <= m <= self.month,
                acc == days_before_month(self.year as int, m as int),
                acc <= 31 * (m as int - 1),
            decreases self.month - m,
        {
            proof {
                lemma_days_before_month_bounds(self.year as int, m as int + 1);
            }
            acc = acc + days_in_month(self.year, m) as u64;
            m = m + 1;
        }
        let yy = (self.year - 1) as u64;
        proof {
            lemma_div_is_ordered_by_denominator(yy as int, 4, 100);
        }
        let leaps: u64 = yy / 4 - yy / 100 + yy / 400;
        365 * yy + leaps + acc + self.day as u64
    }

    pub fn is_weekend(&self) -> (b: bool)
        requires
            self.wf(),
        ensures
            b == self.spec_is_weekend(),
    {
        let n = self.day_number();
        n % 7 == 6 || n % 7 == 0
    }

    /// The previous calendar day.
    pub fn prev_day(&self) -> (r: Date)
        requires
            self.wf(),
            self.idx() > 1,
        ensures
            r.wf(),
            r.idx() == self.idx() - 1,
    {
        if self.day > 1 {
            Date { year: self.year, month: self.month, day: self.day - 1 }
        } else if self.month > 1 {
            let pm = self.month - 1;
            let d = days_in_month(self.year, pm);
            Date { year: self.year, month: pm, day: d }
        } else {
            proof {
                if self.year == 1 {
                    assert(self.idx() == 1);
                } else {
                    lemma_year_rollover(self.year as int);
                }
            }
            Date { year: self.year - 1, month: 12, day: 31 }
        }
    }
}

} // verus!
