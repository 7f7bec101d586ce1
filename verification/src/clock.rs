//! The one place the library asks for the current time.

use vstd::prelude::*;

use chrono::Datelike;
use chrono::Timelike;

use crate::calendar::Timestamp;

verus! {

/// The current naive local time, to minute precision.
///
/// Relies on `chrono::Local::now` and the `Datelike` / `Timelike` accessors
/// of `chrono::NaiveDateTime`: they return a calendar-valid date (month 1
/// to 12, day valid for that month and year under the proleptic Gregorian
/// leap rule chrono shares with `is_leap_year`), with the year inside
/// chrono's narrow range (a few hundred thousand either way, so far from
/// the ends of `i32`), and a time with hour below 24 and minute below 60.
/// Nothing is promised about which instant comes back: two calls may
/// differ.
#[verifier::external_body]
pub fn local_now() -> (t: Timestamp)
    ensures
        t.wf(),
        i32::MIN < t.year < i32::MAX,
{
    let now = chrono::Local::now().naive_local();
    Timestamp {
        year: now.year(),
        month: now.month() as u8,
        day: now.day() as u8,
        hour: now.hour() as u8,
        minute: now.minute() as u8,
    }
}

} // verus!
