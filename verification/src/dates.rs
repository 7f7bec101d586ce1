//! Parsing the posting time shown on a listing row.
//!
//! The site writes either `ma HH:MM` (today), `tegnap HH:MM` (yesterday),
//! or a plain `YYYY-MM-DD` date, which is read as midnight. The first two
//! are relative, so the caller supplies what "today" is.

use vstd::prelude::*;

use crate::calendar::{days_in_month, days_in_month_exec, prev_day, spec_prev_day, Timestamp};
use crate::numbers::{parse_u64, parse_u64_spec};
use crate::text::{split_lit, split_on, starts_with, starts_with_lit, words, words_of};

verus! {

/// The hour and minute of an `HH:MM` expression: one or two digits each,
/// separated by one colon, hour below 24, minute below 60.
pub open spec fn spec_time_parts(t: Seq<char>) -> Option<(u64, u64)> {
    let parts = split_on(t, ":"@);
    if parts.len() == 2 && 1 <= parts[0].len() <= 2 && 1 <= parts[1].len() <= 2 {
        match (parse_u64_spec(parts[0]), parse_u64_spec(parts[1])) {
            (Some(h), Some(m)) => if h <= 23 && m <= 59 {
                Some((h, m))
            } else {
                None
            },
            _ => None,
        }
    } else {
        None
    }
}

/// The calendar date of a `YYYY-MM-DD` expression: one to four digits of
/// year, one or two of month and day, hyphen-separated, naming a valid day
/// of the proleptic Gregorian calendar.
pub open spec fn spec_date_parts(t: Seq<char>) -> Option<(u64, u64, u64)> {
    let parts = split_on(t, "-"@);
    if parts.len() == 3 && 1 <= parts[0].len() <= 4 && 1 <= parts[1].len() <= 2 && 1 <= parts[2].len() <= 2 {
        match (parse_u64_spec(parts[0]), parse_u64_spec(parts[1]), parse_u64_spec(parts[2])) {
            (Some(y), Some(mo), Some(d)) => if y <= 9999 && 1 <= mo <= 12 && 1 <= d
                <= days_in_month(y as int, mo as int) {
                Some((y, mo, d))
            } else {
                None
            },
            _ => None,
        }
    } else {
        None
    }
}

/// What a listing's time expression means relative to `today`:
/// `ma HH:MM` is today at that time, `tegnap HH:MM` is the day before at
/// that time, and anything else must be a `YYYY-MM-DD` date at midnight.
pub open spec fn spec_listing_date(expr: Seq<char>, today: Timestamp) -> Option<Timestamp> {
    if starts_with(expr, "ma"@) {
        let w = words_of(expr);
        if w.len() >= 2 {
            match spec_time_parts(w[1]) {
                Some((h, m)) => Some(
                    Timestamp {
                        year: today.year,
                        month: today.month,
                        day: today.day,
                        hour: h as u8,
                        minute: m as u8,
                    },
                ),
                None => None,
            }
        } else {
            None
        }
    } else if starts_with(expr, "tegnap"@) {
        let w = words_of(expr);
        if w.len() >= 2 {
            match spec_time_parts(w[1]) {
                Some((h, m)) => {
                    let (y, mo, d) = spec_prev_day(
                        today.year as int,
                        today.month as int,
                        today.day as int,
                    );
                    Some(
                        Timestamp {
                            year: y as i32,
                            month: mo as u8,
                            day: d as u8,
                            hour: h as u8,
                            minute: m as u8,
                        },
                    )
                },
                None => None,
            }
        } else {
            None
        }
    } else {
        match spec_date_parts(expr) {
            Some((y, mo, d)) => Some(
                Timestamp { year: y as i32, month: mo as u8, day: d as u8, hour: 0, minute: 0 },
            ),
            None => None,
        }
    }
}

/// Parses an `HH:MM` expression.
fn parse_time_parts(t: &Vec<char>) -> (r: Option<(u64, u64)>)
    ensures
        r == spec_time_parts(t@),
{
    proof {
        reveal_strlit(":");
    }
    let parts = split_lit(t, ":");
    if parts.len() != 2 {
        return None;
    }
    proof {
        assert(parts@[0].deep_view() =~= parts@[0]@);
        assert(parts@[1].deep_view() =~= parts@[1]@);
        assert(split_on(t@, ":"@)[0] == parts@[0]@);
        assert(split_on(t@, ":"@)[1] == parts@[1]@);
    }
    let p0 = &parts[0];
    let p1 = &parts[1];
    if p0.len() < 1 || p0.len() > 2 || p1.len() < 1 || p1.len() > 2 {
        return None;
    }
    let h = match parse_u64(p0) {
        Some(h) => h,
        None => {
            return None;
        },
    };
    let m = match parse_u64(p1) {
        Some(m) => m,
        None => {
            return None;
        },
    };
    if h <= 23 && m <= 59 {
        Some((h, m))
    } else {
        None
    }
}

/// Parses a `YYYY-MM-DD` expression.
fn parse_date_parts(t: &Vec<char>) -> (r: Option<(u64, u64, u64)>)
    ensures
        r == spec_date_parts(t@),
{
    proof {
        reveal_strlit("-");
    }
    let parts = split_lit(t, "-");
    if parts.len() != 3 {
        return None;
    }
    proof {
        assert(parts@[0].deep_view() =~= parts@[0]@);
        assert(parts@[1].deep_view() =~= parts@[1]@);
        assert(parts@[2].deep_view() =~= parts@[2]@);
        assert(split_on(t@, "-"@)[0] == parts@[0]@);
        assert(split_on(t@, "-"@)[1] == parts@[1]@);
        assert(split_on(t@, "-"@)[2] == parts@[2]@);
    }
    let p0 = &parts[0];
    let p1 = &parts[1];
    let p2 = &parts[2];
    if p0.len() < 1 || p0.len() > 4 || p1.len() < 1 || p1.len() > 2 || p2.len() < 1 || p2.len()
        > 2 {
        return None;
    }
    let y = match parse_u64(p0) {
        Some(y) => y,
        None => {
            return None;
        },
    };
    let mo = match parse_u64(p1) {
        Some(mo) => mo,
        None => {
            return None;
        },
    };
    let d = match parse_u64(p2) {
        Some(d) => d,
        None => {
            return None;
        },
    };
    if y <= 9999 && 1 <= mo && mo <= 12 && 1 <= d && d <= days_in_month_exec(
        y as i32,
        mo as u8,
    ) as u64 {
        Some((y, mo, d))
    } else {
        None
    }
}

/// Parses a listing's time expression relative to `today`.
pub fn parse_listing_date(expr: &Vec<char>, today: Timestamp) -> (r: Option<Timestamp>)
    requires
        today.wf(),
        today.year > i32::MIN,
    ensures
        r == spec_listing_date(expr@, today),
{
    if starts_with_lit(expr, "ma") {
        let w = words(expr);
        if w.len() >= 2 {
            proof {
                assert(w.deep_view()[1] == w@[1]@);
            }
            match parse_time_parts(&w[1]) {
                Some((h, m)) => Some(
                    Timestamp {
                        year: today.year,
                        month: today.month,
                        day: today.day,
                        hour: h as u8,
                        minute: m as u8,
                    },
                ),
                None => None,
            }
        } else {
            None
        }
    } else if starts_with_lit(expr, "tegnap") {
        let w = words(expr);
        if w.len() >= 2 {
            proof {
                assert(w.deep_view()[1] == w@[1]@);
            }
            match parse_time_parts(&w[1]) {
                Some((h, m)) => {
                    let (y, mo, d) = prev_day(today.year, today.month, today.day);
                    Some(Timestamp { year: y, month: mo, day: d, hour: h as u8, minute: m as u8 })
                },
                None => None,
            }
        } else {
            None
        }
    } else {
        match parse_date_parts(expr) {
            Some((y, mo, d)) => Some(
                Timestamp { year: y as i32, month: mo as u8, day: d as u8, hour: 0, minute: 0 },
            ),
            None => None,
        }
    }
}

} // verus!
