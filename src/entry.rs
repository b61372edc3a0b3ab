//! Tutoring sessions as they are recorded, and the rules a session must meet
//! before it is stored.

use vstd::prelude::*;
use vstd::string::StringExecFns;
use crate::clock::{clock_minutes, is_clock, read_clock};
use crate::text::{chars_of, digit_at, digit_value, is_digit};

verus! {

/// One tutoring session.
#[derive(Debug, PartialEq, Eq)]
pub struct TimeEntry {
    pub date: String,
    pub time_start: String,
    pub time_end: String,
    pub description: String,
}

/// Whether `y` is a leap year of the Gregorian calendar.
pub open spec fn is_leap_year(y: nat) -> bool {
    y % 4 == 0 && (y % 100 != 0 || y % 400 == 0)
}

/// The number of days of month `m` (1 to 12) of year `y`.
pub open spec fn days_in_month(y: nat, m: nat) -> nat {
    if m == 2 {
        if is_leap_year(y) {
            29
        } else {
            28
        }
    } else if m == 4 || m == 6 || m == 9 || m == 11 {
        30
    } else {
        31
    }
}

/// The year of a `YYYY-MM-DD` text.
pub open spec fn date_year(s: Seq<char>) -> nat {
    digit_value(s[0]) * 1000 + digit_value(s[1]) * 100 + digit_value(s[2]) * 10 + digit_value(
        s[3],
    )
}

/// The month of a `YYYY-MM-DD` text.
pub open spec fn date_month(s: Seq<char>) -> nat {
    digit_value(s[5]) * 10 + digit_value(s[6])
}

/// The day of a `YYYY-MM-DD` text.
pub open spec fn date_day(s: Seq<char>) -> nat {
    digit_value(s[8]) * 10 + digit_value(s[9])
}

/// `s` is a calendar date written `YYYY-MM-DD`.
pub open spec fn is_date(s: Seq<char>) -> bool {
    &&& s.len() == 10
    &&& forall|i: int| 0 <= i < 10 && i != 4 && i != 7 ==> is_digit(#[trigger] s[i])
    &&& s[4] == '-' && s[7] == '-'
    &&& 1 <= date_month(s) <= 12
    &&& 1 <= date_day(s) <= days_in_month(date_year(s), date_month(s))
}

/// The fields of a session that may be stored: a calendar date, two clock
/// times with the end after the start, and a description.
pub open spec fn valid_fields(
    date: Seq<char>,
    time_start: Seq<char>,
    time_end: Seq<char>,
    description: Seq<char>,
) -> bool {
    &&& is_date(date)
    &&& is_clock(time_start)
    &&& is_clock(time_end)
    &&& clock_minutes(time_start) < clock_minutes(time_end)
    &&& description.len() > 0
}

impl TimeEntry {
    /// The session meets the rules for storage.
    pub open spec fn is_valid(&self) -> bool {
        valid_fields(self.date@, self.time_start@, self.time_end@, self.description@)
    }
}

/// Why a session was refused; each carries the offending text.
#[derive(Debug, PartialEq, Eq)]
pub enum ValidationError {
    /// The date is not a calendar date `YYYY-MM-DD`.
    Date(String),
    /// The start is not a time `HH:MM`.
    TimeStart(String),
    /// The end is not a time `HH:MM`.
    TimeEnd(String),
    /// The end is not after the start.
    NotAfterStart { time_start: String, time_end: String },
    /// The description is empty.
    EmptyDescription,
}

/// `r` is what checking the four fields gives: the entry with those very
/// fields when they are valid, else the first rule broken, in the order date,
/// start, end, order of the times, description.
pub open spec fn validation_outcome(
    r: Result<TimeEntry, ValidationError>,
    date: Seq<char>,
    time_start: Seq<char>,
    time_end: Seq<char>,
    description: Seq<char>,
) -> bool {
    match r {
        Ok(e) => {
            &&& valid_fields(date, time_start, time_end, description)
            &&& e.date@ == date
            &&& e.time_start@ == time_start
            &&& e.time_end@ == time_end
            &&& e.description@ == description
        },
        Err(ValidationError::Date(raw)) => !is_date(date) && raw@ == date,
        Err(ValidationError::TimeStart(raw)) => {
            &&& is_date(date)
            &&& !is_clock(time_start)
            &&& raw@ == time_start
        },
        Err(ValidationError::TimeEnd(raw)) => {
            &&& is_date(date)
            &&& is_clock(time_start)
            &&& !is_clock(time_end)
            &&& raw@ == time_end
        },
        Err(ValidationError::NotAfterStart { time_start: s, time_end: t }) => {
            &&& is_date(date)
            &&& is_clock(time_start)
            &&& is_clock(time_end)
            &&& clock_minutes(time_end) <= clock_minutes(time_start)
            &&& s@ == time_start
            &&& t@ == time_end
        },
        Err(ValidationError::EmptyDescription) => {
            &&& is_date(date)
            &&& is_clock(time_start)
            &&& is_clock(time_end)
            &&& clock_minutes(time_start) < clock_minutes(time_end)
            &&& description.len() == 0
        },
    }
}

fn two_digits(v: &Vec<char>, i: usize) -> (r: Option<u32>)
    requires
        i < 9,
        v@.len() == 10,
    ensures
        r is Some <==> is_digit(v@[i as int]) && is_digit(v@[i + 1]),
        r matches Some(n) ==> n == digit_value(v@[i as int]) * 10 + digit_value(v@[i + 1]),
{
    match (digit_at(v, i), digit_at(v, i + 1)) {
        (Some(a), Some(b)) => Some(a * 10 + b),
        _ => None,
    }
}

/// Whether `s` is a calendar date written `YYYY-MM-DD`.
pub fn check_date(s: &str) -> (r: bool)
    ensures
        r == is_date(s@),
{
    let v = chars_of(s);
    if v.len() != 10 || v[4] != '-' || v[7] != '-' {
        return false;
    }
    match (two_digits(&v, 0), two_digits(&v, 2), two_digits(&v, 5), two_digits(&v, 8)) {
        (Some(c), Some(y), Some(m), Some(d)) => {
            let ghost s = s@;
            assert(forall|i: int| 0 <= i < 10 && i != 4 && i != 7 ==> is_digit(#[trigger] s[i]))
                by {
                assert forall|i: int| 0 <= i < 10 && i != 4 && i != 7 implies is_digit(
                    #[trigger] s[i],
                ) by {
                    assert(i == 0 || i == 1 || i == 2 || i == 3 || i == 5 || i == 6 || i == 8
                        || i == 9);
                }
            }
            let year = c * 100 + y;
            let leap = year % 4 == 0 && (year % 100 != 0 || year % 400 == 0);
            let days: u32 = if m == 2 {
                if leap {
                    29
                } else {
                    28
                }
            } else if m == 4 || m == 6 || m == 9 || m == 11 {
                30
            } else {
                31
            };
            1 <= m && m <= 12 && 1 <= d && d <= days
        },
        _ => false,
    }
}

impl TimeEntry {
    /// Checks the four fields and builds the session from them unchanged.
    pub fn new(date: &str, time_start: &str, time_end: &str, description: &str) -> (r: Result<
        TimeEntry,
        ValidationError,
    >)
        ensures
            validation_outcome(r, date@, time_start@, time_end@, description@),
    {
        if !check_date(date) {
            return Err(ValidationError::Date(date.to_owned()));
        }
        let start = match read_clock(time_start) {
            Some(m) => m,
            None => {
                return Err(ValidationError::TimeStart(time_start.to_owned()));
            },
        };
        let end = match read_clock(time_end) {
            Some(m) => m,
            None => {
                return Err(ValidationError::TimeEnd(time_end.to_owned()));
            },
        };
        if end <= start {
            return Err(
                ValidationError::NotAfterStart {
                    time_start: time_start.to_owned(),
                    time_end: time_end.to_owned(),
                },
            );
        }
        if description.is_empty() {
            return Err(ValidationError::EmptyDescription);
        }
        Ok(
            TimeEntry {
                date: date.to_owned(),
                time_start: time_start.to_owned(),
                time_end: time_end.to_owned(),
                description: description.to_owned(),
            },
        )
    }
}

/// Relies on chrono's `Local::now`, `DateTime::date_naive` and `NaiveDate`'s
/// `Display`: today's local date as `YYYY-MM-DD` (a year outside 0 to 9999 is
/// written with a sign and more digits), so it ends in `-MM-DD`.
#[verifier::external_body]
pub(crate) fn local_today() -> (r: String)
    ensures
        r@.len() >= 10,
        r@[r@.len() - 3] == '-',
        r@[r@.len() - 6] == '-',
{
    chrono::Local::now().date_naive().to_string()
}

/// The tab-separated line of a session: date, start, end, description.
pub open spec fn entry_line(e: TimeEntry) -> Seq<char> {
    e.date@ + seq!['\t'] + e.time_start@ + seq!['\t'] + e.time_end@ + seq!['\t'] + e.description@
}

impl TimeEntry {
    /// Checks and builds a session; without a date it is dated today.
    pub fn record(date: Option<&str>, time_start: &str, time_end: &str, description: &str) -> (r:
        Result<TimeEntry, ValidationError>)
        ensures
            date matches Some(d) ==> validation_outcome(
                r,
                d@,
                time_start@,
                time_end@,
                description@,
            ),
            exists|d: Seq<char>| validation_outcome(r, d, time_start@, time_end@, description@),
    {
        match date {
            Some(d) => TimeEntry::new(d, time_start, time_end, description),
            None => {
                let today = local_today();
                TimeEntry::new(today.as_str(), time_start, time_end, description)
            },
        }
    }

    /// The session as one tab-separated line.
    pub fn line(&self) -> (r: String)
        ensures
            r@ == entry_line(*self),
    {
        let mut r = self.date.clone();
        r.append("\t");
        r.append(self.time_start.as_str());
        r.append("\t");
        r.append(self.time_end.as_str());
        r.append("\t");
        r.append(self.description.as_str());
        proof {
            reveal_strlit("\t");
        }
        r
    }
}

} // verus!
