//! The error type of this crate.
use crate::calendar::{civil_text, datetime_text, decimal, decimal_text, jiff_error_text};
use crate::civil::DateTime;
use vstd::prelude::*;

verus! {

/// The underlying kind of an [`Error`].
#[derive(Debug)]
pub enum ErrorKind {
    /// An ad hoc error carrying a message.
    Adhoc(String),
    /// A number that is not within its allowed range `min..=max`.
    Range { given: i64, min: i64, max: i64 },
    /// The end of a datetime range is not strictly greater than its start.
    DateTimeRange { what: String, start: DateTime, end: DateTime },
    /// A failed operation on `jiff` values, with `jiff`'s message.
    Jiff(String),
}

/// Error type returned by all fallible operations within this crate.
#[derive(Debug)]
pub struct Error {
    /// What went wrong.
    pub kind: ErrorKind,
}

impl Error {
    /// The message describing the error.
    pub open spec fn message(self) -> Seq<char> {
        match self.kind {
            ErrorKind::Adhoc(m) => m@,
            ErrorKind::Range { given, min, max } => "parameter with value "@ + decimal_text(
                given as int,
            ) + " is not in the required range of "@ + decimal_text(min as int) + "..="@
                + decimal_text(max as int),
            ErrorKind::DateTimeRange { what, start, end } => what@
                + " end must be greater than start but got "@ + what@ + " range "@ + civil_text(
                start,
            ) + ".."@ + civil_text(end),
            ErrorKind::Jiff(m) => m@,
        }
    }

    /// The datetimes an error refers to are valid.
    pub open spec fn wf(self) -> bool {
        self.kind matches ErrorKind::DateTimeRange { start, end, .. } ==> start.wf() && end.wf()
    }

    /// Returns `true` if this error reports `given` as out of the range `min..=max`.
    pub open spec fn is_range(self, given: int, min: int, max: int) -> bool {
        self.kind matches ErrorKind::Range { given: g, min: lo, max: hi } && g == given && lo
            == min && hi == max
    }

    /// Returns `true` if this error reports `start..end` of `what` as empty.
    pub open spec fn is_datetime_range(self, what: Seq<char>, start: DateTime, end: DateTime) -> bool {
        self.kind matches ErrorKind::DateTimeRange { what: w, start: s, end: e } && w@ == what && s
            == start && e == end
    }

    /// Returns `true` if this error carries the message `m`.
    pub open spec fn is_adhoc(self, m: Seq<char>) -> bool {
        self.kind matches ErrorKind::Adhoc(text) && text@ == m
    }

    /// Creates an ad hoc error with the given message.
    pub fn adhoc(message: String) -> (r: Error)
        ensures
            r.kind == ErrorKind::Adhoc(message),
            r.wf(),
    {
        Error { kind: ErrorKind::Adhoc(message) }
    }

    /// Creates an error indicating that `given` is out of the range `min..=max`.
    pub fn range(given: i64, min: i64, max: i64) -> (r: Error)
        ensures
            r.kind == (ErrorKind::Range { given, min, max }),
            r.wf(),
    {
        Error { kind: ErrorKind::Range { given, min, max } }
    }

    /// Creates an error indicating that the end of a datetime range is not strictly greater than
    /// its start.
    pub fn datetime_range(what: &str, start: DateTime, end: DateTime) -> (r: Error)
        requires
            start.wf(),
            end.wf(),
        ensures
            r.is_datetime_range(what@, start, end),
            r.wf(),
    {
        Error { kind: ErrorKind::DateTimeRange { what: String::from_str(what), start, end } }
    }

    /// Creates an error from a failed `jiff` operation.
    pub fn jiff(err: jiff::Error) -> (r: Error)
        ensures
            r.kind is Jiff,
            r.wf(),
    {
        Error { kind: ErrorKind::Jiff(jiff_error_text(&err)) }
    }

    /// Returns the message describing the error.
    pub fn to_string(&self) -> (r: String)
        requires
            self.wf(),
        ensures
            r@ == self.message(),
    {
        match &self.kind {
            ErrorKind::Adhoc(m) => m.clone(),
            ErrorKind::Range { given, min, max } => {
                let mut s = String::from_str("parameter with value ");
                s.append(decimal(*given).as_str());
                s.append(" is not in the required range of ");
                s.append(decimal(*min).as_str());
                s.append("..=");
                s.append(decimal(*max).as_str());
                s
            },
            ErrorKind::DateTimeRange { what, start, end } => {
                let mut s = what.clone();
                s.append(" end must be greater than start but got ");
                s.append(what.as_str());
                s.append(" range ");
                s.append(datetime_text(start).as_str());
                s.append("..");
                s.append(datetime_text(end).as_str());
                s
            },
            ErrorKind::Jiff(m) => m.clone(),
        }
    }
}

} // verus!
