//! Instants, held as the RFC 3339 text that everything in this library reads of
//! them: records carry it, views show it, and lists are ordered by it.

use crate::text;
use vstd::prelude::*;

verus! {

/// A date and a time of day.
pub struct Civil {
    /// The year.
    pub year: nat,
    /// The month, from one.
    pub month: nat,
    /// The day of the month, from one.
    pub day: nat,
    /// The hour.
    pub hour: nat,
    /// The minute.
    pub minute: nat,
    /// The second.
    pub second: nat,
    /// The nanoseconds behind the second.
    pub nanos: nat,
}

/// How many days a month has.
pub open spec fn days_of(year: nat, month: nat) -> nat {
    if month == 2 {
        if year % 4 == 0 && (year % 100 != 0 || year % 400 == 0) {
            29
        } else {
            28
        }
    } else if month == 4 || month == 6 || month == 9 || month == 11 {
        30
    } else {
        31
    }
}

/// The decimal text of a number, with zeros in front up to the given width.
pub open spec fn padded(n: nat, width: nat) -> Seq<char> {
    let digits = text::decimal(n);
    if digits.len() < width {
        Seq::new((width - digits.len()) as nat, |i: int| '0') + digits
    } else {
        digits
    }
}

/// A year of four digits; one that needs more stands behind a plus sign.
pub open spec fn year_text(year: nat) -> Seq<char> {
    if year <= 9999 {
        padded(year, 4)
    } else {
        "+"@ + text::decimal(year)
    }
}

impl Civil {
    /// Whether there is such a date and such a time of day.
    pub open spec fn exists_in_calendar(self) -> bool {
        &&& 1 <= self.month <= 12
        &&& 1 <= self.day <= days_of(self.year, self.month)
        &&& self.hour < 24
        &&& self.minute < 60
        &&& self.second < 60
        &&& self.nanos < 1_000_000_000
    }

    /// The RFC 3339 text to the second, without an offset.
    pub open spec fn to_the_second(self) -> Seq<char> {
        year_text(self.year) + "-"@ + padded(self.month, 2) + "-"@ + padded(self.day, 2) + "T"@
            + padded(self.hour, 2) + ":"@ + padded(self.minute, 2) + ":"@ + padded(self.second, 2)
    }

    /// What is written behind the second: milliseconds, microseconds or
    /// nanoseconds, whichever is the coarsest that loses nothing, and nothing
    /// where the second is full.
    pub open spec fn shortest_fraction(self) -> Seq<char> {
        if self.nanos == 0 {
            ""@
        } else if self.nanos % 1_000_000 == 0 {
            "."@ + padded(self.nanos / 1_000_000, 3)
        } else if self.nanos % 1_000 == 0 {
            "."@ + padded(self.nanos / 1_000, 6)
        } else {
            "."@ + padded(self.nanos, 9)
        }
    }
}

/// Whether a text is an instant in UTC as records carry it: to the nanosecond,
/// with its offset written out.
pub open spec fn is_utc_instant(s: Seq<char>) -> bool {
    exists|at: Civil| #[trigger]
        at.exists_in_calendar() && s == at.to_the_second() + at.shortest_fraction() + "+00:00"@
}

/// Whether a text is an instant in UTC as audit lines carry it: to the
/// millisecond, with `Z` for its offset.
pub open spec fn is_utc_millis(s: Seq<char>) -> bool {
    exists|at: Civil| #[trigger]
        at.exists_in_calendar() && s == at.to_the_second() + "."@ + padded(
            at.nanos / 1_000_000,
            3,
        ) + "Z"@
}

/// An instant in UTC.
#[derive(Debug, PartialEq, Eq)]
pub struct Timestamp {
    /// Its RFC 3339 text.
    pub text: String,
}

impl Clone for Timestamp {
    fn clone(&self) -> (out: Self)
        ensures
            out == *self,
    {
        Timestamp { text: self.text.clone() }
    }
}

/// `chrono::Utc::now` and `DateTime::to_rfc3339`: the current instant, with as
/// many digits behind the second as it needs and its offset written as
/// `+00:00`. Which instant that is depends on when the call is made, and is not
/// stated. The clock of the system is taken to stand behind the start of 1970.
#[verifier::external_body]
fn utc_now_text() -> (out: String)
    ensures
        is_utc_instant(out@),
{
    chrono::Utc::now().to_rfc3339()
}

/// `chrono::Utc::now` and `DateTime::to_rfc3339_opts`: the current instant to
/// the millisecond, with `Z` for its offset. Which instant that is depends on
/// when the call is made, and is not stated. The clock of the system is taken to
/// stand behind the start of 1970.
#[verifier::external_body]
fn utc_now_millis_text() -> (out: String)
    ensures
        is_utc_millis(out@),
{
    chrono::Utc::now().to_rfc3339_opts(chrono::SecondsFormat::Millis, true)
}

impl Timestamp {
    /// The current instant.
    pub fn now() -> (out: Self)
        ensures
            is_utc_instant(out.text@),
    {
        Timestamp { text: utc_now_text() }
    }
}

/// The current instant to the millisecond, as audit lines carry it.
pub fn now_rfc3339() -> (out: String)
    ensures
        is_utc_millis(out@),
{
    utc_now_millis_text()
}

} // verus!
