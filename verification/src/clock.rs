//! The local time a save is made at, as the clock gives it.
use vstd::prelude::*;

use chrono::{Datelike, Timelike};

verus! {

/// The local time fields that chrono gives: the month, day, hour, minute
/// and second in their ranges, the nanosecond below two seconds (a leap
/// second runs past one), the year in chrono's range.
pub open spec fn time_fields_ok(y: i32, mo: u32, d: u32, h: u32, mi: u32, s: u32, ns: u32) -> bool {
    &&& -262143 <= y <= 262142
    &&& 1 <= mo <= 12
    &&& 1 <= d <= 31
    &&& h <= 23
    &&& mi <= 59
    &&& s <= 59
    &&& ns < 2_000_000_000
}

/// A local time read from the clock: year, month, day, hour, minute,
/// second and nanosecond. Only [`local_time_now`] makes one.
pub struct LocalTime {
    year: i32,
    month: u32,
    day: u32,
    hour: u32,
    minute: u32,
    second: u32,
    nanosecond: u32,
}

impl View for LocalTime {
    type V = (i32, u32, u32, u32, u32, u32, u32);

    closed spec fn view(&self) -> (i32, u32, u32, u32, u32, u32, u32) {
        (self.year, self.month, self.day, self.hour, self.minute, self.second, self.nanosecond)
    }
}

impl LocalTime {
    pub fn year(&self) -> (r: i32)
        ensures
            r == self@.0,
    {
        self.year
    }

    pub fn month(&self) -> (r: u32)
        ensures
            r == self@.1,
    {
        self.month
    }

    pub fn day(&self) -> (r: u32)
        ensures
            r == self@.2,
    {
        self.day
    }

    pub fn hour(&self) -> (r: u32)
        ensures
            r == self@.3,
    {
        self.hour
    }

    pub fn minute(&self) -> (r: u32)
        ensures
            r == self@.4,
    {
        self.minute
    }

    pub fn second(&self) -> (r: u32)
        ensures
            r == self@.5,
    {
        self.second
    }

    pub fn nanosecond(&self) -> (r: u32)
        ensures
            r == self@.6,
    {
        self.nanosecond
    }
}

/// `chrono::Local::now()`, by its fields. It reads the clock, so only the
/// ranges chrono documents for these fields are claimed.
#[verifier::external_body]
pub(crate) fn local_time_now() -> (t: LocalTime)
    ensures
        time_fields_ok(t@.0, t@.1, t@.2, t@.3, t@.4, t@.5, t@.6),
{
    let now = chrono::Local::now();
    LocalTime {
        year: now.year(),
        month: now.month(),
        day: now.day(),
        hour: now.hour(),
        minute: now.minute(),
        second: now.second(),
        nanosecond: now.nanosecond(),
    }
}

} // verus!
