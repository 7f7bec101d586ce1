//! Naive local timestamps and the small amount of calendar arithmetic the
//! listing dates need (proleptic Gregorian, as the site's dates are).

use vstd::prelude::*;

use crate::numbers::{padded_digits, u64_padded};
use crate::text::chars_string;

verus! {

/// A naive local timestamp: no time zone, minute precision.
#[derive(Clone, Copy, Debug, PartialEq, Eq, Structural)]
pub struct Timestamp {
    pub year: i32,
    pub month: u8,
    pub day: u8,
    pub hour: u8,
    pub minute: u8,
}

/// Whether `y` is a leap year.
pub open spec fn is_leap_year(y: int) -> bool {
    y % 4 == 0 && (y % 100 != 0 || y % 400 == 0)
}

/// Days in month `m` of year `y` (1-based months).
pub open spec fn days_in_month(y: int, m: int) -> int {
    if m == 2 {
        if is_leap_year(y) {
            29
        } else {
            28
        }
    } else if m == 4 || m == 6 || m == 9 || m == 11 {
        30
    } else {
        31
    }
}

impl Timestamp {
    /// A calendar-valid timestamp.
    pub open spec fn wf(&self) -> bool {
        &&& 1 <= self.month <= 12
        &&& 1 <= self.day <= days_in_month(self.year as int, self.month as int)
        &&& self.hour <= 23
        &&& self.minute <= 59
    }

    /// The timestamp rendered as `YYYY-MM-DD HH:MM` (all fields zero-padded,
    /// a leading minus for years before year zero).
    pub open spec fn spec_format(&self) -> Seq<char> {
        self.spec_year_part() + seq!['-'] + padded_digits(self.month as nat, 2)
            + seq!['-'] + padded_digits(self.day as nat, 2) + seq![' '] + padded_digits(
            self.hour as nat,
            2,
        ) + seq![':'] + padded_digits(self.minute as nat, 2)
    }

    /// The year, zero-padded to four digits, signed when negative.
    pub open spec fn spec_year_part(&self) -> Seq<char> {
        if self.year >= 0 {
            padded_digits(self.year as nat, 4)
        } else {
            seq!['-'] + padded_digits((0 - self.year as int) as nat, 4)
        }
    }

    /// Renders the timestamp as `YYYY-MM-DD HH:MM`.
    pub fn format(&self) -> (s: String)
        ensures
            s@ == self.spec_format(),
    {
        let mut v: Vec<char>;
        if self.year >= 0 {
            v = u64_padded(self.year as u64, 4);
        } else {
            let magnitude: u64 = (-(self.year as i64)) as u64;
            v = Vec::new();
            v.push('-');
            let digits = u64_padded(magnitude, 4);
            let mut d: usize = 0;
            while d < digits.len()
                invariant
                    d <= digits@.len(),
                    v@ == seq!['-'] + digits@.take(d as int),
                decreases digits@.len() - d,
            {
                v.push(digits[d]);
                d = d + 1;
                proof {
                    assert(v@ =~= seq!['-'] + digits@.take(d as int));
                }
            }
            proof {
                assert(digits@.take(digits@.len() as int) =~= digits@);
                assert(v@ =~= self.spec_year_part());
            }
        }
        v.push('-');
        let mo = u64_padded(self.month as u64, 2);
        let mut i: usize = 0;
        while i < mo.len()
            invariant
                i <= mo@.len(),
                v@ == self.spec_year_part() + seq!['-'] + mo@.take(i as int),
            decreases mo@.len() - i,
        {
            v.push(mo[i]);
            i = i + 1;
            proof {
                assert(v@ =~= self.spec_year_part() + seq!['-'] + mo@.take(i as int));
            }
        }
        v.push('-');
        let da = u64_padded(self.day as u64, 2);
        let mut j: usize = 0;
        while j < da.len()
            invariant
                j <= da@.len(),
                v@ == self.spec_year_part() + seq!['-'] + padded_digits(
                    self.month as nat,
                    2,
                ) + seq!['-'] + da@.take(j as int),
            decreases da@.len() - j,
        {
            v.push(da[j]);
            j = j + 1;
            proof {
                assert(v@ =~= self.spec_year_part() + seq!['-'] + padded_digits(
                    self.month as nat,
                    2,
                ) + seq!['-'] + da@.take(j as int));
            }
        }
        v.push(' ');
        let ho = u64_padded(self.hour as u64, 2);
        let mut k: usize = 0;
        while k < ho.len()
            invariant
                k <= ho@.len(),
                v@ == self.spec_year_part() + seq!['-'] + padded_digits(
                    self.month as nat,
                    2,
                ) + seq!['-'] + padded_digits(self.day as nat, 2) + seq![' '] + ho@.take(k as int),
            decreases ho@.len() - k,
        {
            v.push(ho[k]);
            k = k + 1;
            proof {
                assert(v@ =~= self.spec_year_part() + seq!['-'] + padded_digits(
                    self.month as nat,
                    2,
                ) + seq!['-'] + padded_digits(self.day as nat, 2) + seq![' '] + ho@.take(
                    k as int,
                ));
            }
        }
        v.push(':');
        let mi = u64_padded(self.minute as u64, 2);
        let mut l: usize = 0;
        while l < mi.len()
            invariant
                l <= mi@.len(),
                v@ == self.spec_year_part() + seq!['-'] + padded_digits(
                    self.month as nat,
                    2,
                ) + seq!['-'] + padded_digits(self.day as nat, 2) + seq![' '] + padded_digits(
                    self.hour as nat,
                    2,
                ) + seq![':'] + mi@.take(l as int),
            decreases mi@.len() - l,
        {
            v.push(mi[l]);
            l = l + 1;
            proof {
                assert(v@ =~= self.spec_year_part() + seq!['-'] + padded_digits(
                    self.month as nat,
                    2,
                ) + seq!['-'] + padded_digits(self.day as nat, 2) + seq![' '] + padded_digits(
                    self.hour as nat,
                    2,
                ) + seq![':'] + mi@.take(l as int));
            }
        }
        proof {
            assert(mo@.take(mo@.len() as int) =~= mo@);
            assert(da@.take(da@.len() as int) =~= da@);
            assert(ho@.take(ho@.len() as int) =~= ho@);
            assert(mi@.take(mi@.len() as int) =~= mi@);
            assert(v@ =~= self.spec_format());
        }
        chars_string(&v)
    }
}

/// The calendar day before `(year, month, day)`.
pub open spec fn spec_prev_day(year: int, month: int, day: int) -> (int, int, int) {
    if day > 1 {
        (year, month, day - 1)
    } else if month > 1 {
        (year, month - 1, days_in_month(year, month - 1))
    } else {
        (year - 1, 12, 31)
    }
}

/// Exec check for leap years.
pub fn is_leap_year_exec(y: i32) -> (r: bool)
    ensures
        r == is_leap_year(y as int),
{
    y % 4 == 0 && (y % 100 != 0 || y % 400 == 0)
}

/// Exec days-in-month table.
pub fn days_in_month_exec(y: i32, m: u8) -> (r: u8)
    ensures
        r == days_in_month(y as int, m as int),
{
    if m == 2 {
        if is_leap_year_exec(y) {
            29
        } else {
            28
        }
    } else if m == 4 || m == 6 || m == 9 || m == 11 {
        30
    } else {
        31
    }
}

/// Steps a valid date back by one day.
pub fn prev_day(year: i32, month: u8, day: u8) -> (r: (i32, u8, u8))
    requires
        1 <= month <= 12,
        1 <= day <= days_in_month(year as int, month as int),
        year > i32::MIN,
    ensures
        (r.0 as int, r.1 as int, r.2 as int) == spec_prev_day(year as int, month as int, day as int),
        1 <= r.1 <= 12,
        1 <= r.2 <= days_in_month(r.0 as int, r.1 as int),
{
    if day > 1 {
        (year, month, day - 1)
    } else if month > 1 {
        (year, month - 1, days_in_month_exec(year, month - 1))
    } else {
        (year - 1, 12, 31)
    }
}

} // verus!
