//! Calendar days: reading them from text, today's date, and writing them out.

use chrono::Datelike;
use vstd::prelude::*;
use crate::domain::DueDate;
use crate::text::{decimal, decimal_chars, pad_zeros, push_all, zero_padded};

verus! {

/// What `chrono::NaiveDate::parse_from_str(text, "%Y-%m-%d")` gives for
/// `text`: the day it denotes, or nothing where `text` is not such a date.
pub uninterp spec fn parsed_date(text: Seq<char>) -> Option<DueDate>;

/// Reads a day written as `YYYY-MM-DD` with `chrono::NaiveDate::parse_from_str`
/// and the format `%Y-%m-%d`. The contract only names the result: which
/// texts chrono accepts is chrono's parser and is not stated here.
#[verifier::external_body]
pub(crate) fn parse_due_date(text: &str) -> (r: Option<DueDate>)
    ensures
        r == parsed_date(text@),
{
    match chrono::NaiveDate::parse_from_str(text, "%Y-%m-%d") {
        Ok(d) => Some(DueDate { year: d.year(), month: d.month(), day: d.day() }),
        Err(_) => None,
    }
}

/// Today's date in the local time zone, from `chrono::Local::now()`
/// (`date_naive`). Which day it is depends on the clock and the time zone;
/// what holds of every outcome is stated: it is a calendar day, and not
/// before 1969-12-31 (`Utc::now` stops on a clock before 1970, and a local
/// offset is less than a day).
#[verifier::external_body]
pub(crate) fn today() -> (r: DueDate)
    ensures
        1 <= r.month <= 12,
        1 <= r.day <= 31,
        !r.precedes(DueDate { year: 1969, month: 12, day: 31 }),
{
    let d = chrono::Local::now().date_naive();
    DueDate { year: d.year(), month: d.month(), day: d.day() }
}

/// A reading of the clock: the day it gave, and its place in a chain of
/// readings (counting this one, and starting again from 0 after
/// `u64::MAX`).
#[derive(Debug)]
pub struct ClockReading {
    day: DueDate,
    count: u64,
}

/// The place of the last reading of a chain: 0 where nothing was read.
pub open spec fn readings(c: Option<ClockReading>) -> u64 {
    match c {
        Some(c) => c.count(),
        None => 0,
    }
}

/// The place that follows `n` in a chain of readings.
pub open spec fn next_reading(n: u64) -> u64 {
    if n == u64::MAX {
        0
    } else {
        (n + 1) as u64
    }
}

impl ClockReading {
    /// The day that the clock gave.
    pub closed spec fn day(&self) -> DueDate {
        self.day
    }

    /// The place of this reading in its chain.
    pub closed spec fn count(&self) -> u64 {
        self.count
    }

    /// Reads today's date from the clock, as the reading that follows
    /// `prev` (the first one where there is none). No other function makes
    /// a reading, so a reading's day is always what the clock gave.
    pub fn read_after(prev: &Option<ClockReading>) -> (r: ClockReading)
        ensures
            r.count() == next_reading(readings(*prev)),
            1 <= r.day().month <= 12,
            1 <= r.day().day <= 31,
            !r.day().precedes(DueDate { year: 1969, month: 12, day: 31 }),
    {
        let d = today();
        let last: u64 = match prev {
            Some(p) => p.count,
            None => 0,
        };
        let count: u64 = if last == u64::MAX {
            0
        } else {
            last + 1
        };
        ClockReading { day: d, count }
    }

    /// The day that the clock gave.
    pub fn date(&self) -> (r: DueDate)
        ensures
            r == self.day(),
    {
        self.day
    }
}

/// A day written as `chrono` writes a `NaiveDate`: the year with four
/// digits (with a sign and at least four digits outside 0 to 9999), then
/// the month and the day with two digits, separated by `-`.
pub open spec fn date_text(d: DueDate) -> Seq<char> {
    let y = d.year as int;
    let year_part = if 0 <= y <= 9999 {
        zero_padded(decimal(y as nat), 4)
    } else if y < 0 {
        seq!['-'] + zero_padded(decimal((-y) as nat), 4)
    } else {
        seq!['+'] + zero_padded(decimal(y as nat), 4)
    };
    year_part + seq!['-'] + zero_padded(decimal(d.month as nat), 2) + seq!['-'] + zero_padded(
        decimal(d.day as nat),
        2,
    )
}

/// Writes a day as `YYYY-MM-DD`.
pub fn date_chars(d: &DueDate) -> (r: Vec<char>)
    ensures
        r@ == date_text(*d),
{
    let mut out: Vec<char> = Vec::new();
    let y = d.year;
    if 0 <= y && y <= 9999 {
        let digits = decimal_chars(y as u64);
        out = pad_zeros(&digits, 4);
    } else if y < 0 {
        out.push('-');
        let magnitude: u64 = (0i64 - (y as i64)) as u64;
        let digits = decimal_chars(magnitude);
        let padded = pad_zeros(&digits, 4);
        push_all(&mut out, &padded);
    } else {
        out.push('+');
        let digits = decimal_chars(y as u64);
        let padded = pad_zeros(&digits, 4);
        push_all(&mut out, &padded);
    }
    out.push('-');
    let m = decimal_chars(d.month as u64);
    let mp = pad_zeros(&m, 2);
    push_all(&mut out, &mp);
    out.push('-');
    let dd = decimal_chars(d.day as u64);
    let dp = pad_zeros(&dd, 2);
    push_all(&mut out, &dp);
    out
}

} // verus!
