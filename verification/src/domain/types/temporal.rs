use vstd::prelude::*;

use crate::domain::types::sql_value::{DateValue, SqlValue, TimeValue};
use crate::error::DomainError;

verus! {

/// What `chrono::NaiveDate::parse_from_str(input, format)` gives: the day number (from the
/// common era) of the date read, or the text of the parse error.
pub uninterp spec fn chrono_date_parse(input: Seq<char>, format: Seq<char>) -> Result<int, Seq<char>>;

/// What `chrono::NaiveTime::parse_from_str(input, format)` gives: the seconds since midnight
/// and the nanoseconds of the time read, or the text of the parse error.
pub uninterp spec fn chrono_time_parse(input: Seq<char>, format: Seq<char>) -> Result<
    (int, int),
    Seq<char>,
>;

/// Calls `chrono::NaiveDate::parse_from_str` and takes the date's day number with
/// `Datelike::num_days_from_ce`, or the error's text.
#[verifier::external_body]
fn parse_naive_date(input: &str, format: &str) -> (r: Result<DateValue, String>)
    ensures
        match r {
            Ok(d) => chrono_date_parse(input@, format@) == Ok::<int, Seq<char>>(
                d.days_from_ce as int,
            ),
            Err(e) => chrono_date_parse(input@, format@) == Err::<int, Seq<char>>(e@),
        },
{
    match chrono::NaiveDate::parse_from_str(input, format) {
        Ok(d) => Ok(DateValue { days_from_ce: chrono::Datelike::num_days_from_ce(&d) }),
        Err(e) => Err(e.to_string()),
    }
}

/// Calls `chrono::NaiveTime::parse_from_str` and takes the time's seconds since midnight
/// and nanoseconds, or the error's text.
#[verifier::external_body]
fn parse_naive_time(input: &str, format: &str) -> (r: Result<TimeValue, String>)
    ensures
        match r {
            Ok(t) => chrono_time_parse(input@, format@) == Ok::<(int, int), Seq<char>>(
                (t.secs as int, t.nanos as int),
            ),
            Err(e) => chrono_time_parse(input@, format@) == Err::<(int, int), Seq<char>>(e@),
        },
{
    match chrono::NaiveTime::parse_from_str(input, format) {
        Ok(t) => Ok(
            TimeValue {
                secs: chrono::Timelike::num_seconds_from_midnight(&t),
                nanos: chrono::Timelike::nanosecond(&t),
            },
        ),
        Err(e) => Err(e.to_string()),
    }
}

/// `prefix`, then `middle`, then `suffix`, then `tail`.
fn message4(prefix: &str, middle: &str, suffix: &str, tail: &str) -> (r: String)
    ensures
        r@ == prefix@ + middle@ + suffix@ + tail@,
{
    let mut s = String::from_str(prefix);
    s.append(middle);
    s.append(suffix);
    s.append(tail);
    s
}

/// The message for a date that does not read as `YYYY-MM-DD`.
pub open spec fn bad_date_message(input: Seq<char>, reason: Seq<char>) -> Seq<char> {
    "Format tanggal '"@ + input + "' salah (Gunakan YYYY-MM-DD): "@ + reason
}

/// The message for a time that reads neither as `HH:MM:SS` nor as `HH:MM`.
pub open spec fn bad_time_message(input: Seq<char>, reason: Seq<char>) -> Seq<char> {
    "Format waktu '"@ + input + "' salah (Gunakan HH:MM:SS atau HH:MM): "@ + reason
}

impl SqlValue {
    /// The value of a date reading: the date, or the error for the input it was read from.
    pub fn date_from_parsed(input: &str, parsed: Result<DateValue, String>) -> (r: Result<
        SqlValue,
        DomainError,
    >)
        ensures
            match parsed {
                Ok(d) => r == Ok::<SqlValue, DomainError>(SqlValue::Date(d)),
                Err(m) => r matches Err(DomainError::InvalidExpression(msg)) && msg@
                    == bad_date_message(input@, m@),
            },
    {
        match parsed {
            Ok(d) => Ok(SqlValue::Date(d)),
            Err(e) => Err(
                DomainError::InvalidExpression(
                    message4("Format tanggal '", input, "' salah (Gunakan YYYY-MM-DD): ", e.as_str()),
                ),
            ),
        }
    }

    /// The value of a time reading: the time, or the error for the input it was read from.
    pub fn time_from_parsed(input: &str, parsed: Result<TimeValue, String>) -> (r: Result<
        SqlValue,
        DomainError,
    >)
        ensures
            match parsed {
                Ok(t) => r == Ok::<SqlValue, DomainError>(SqlValue::Time(t)),
                Err(m) => r matches Err(DomainError::InvalidExpression(msg)) && msg@
                    == bad_time_message(input@, m@),
            },
    {
        match parsed {
            Ok(t) => Ok(SqlValue::Time(t)),
            Err(e) => Err(
                DomainError::InvalidExpression(
                    message4(
                        "Format waktu '",
                        input,
                        "' salah (Gunakan HH:MM:SS atau HH:MM): ",
                        e.as_str(),
                    ),
                ),
            ),
        }
    }

    /// Reads a date written `YYYY-MM-DD`.
    pub fn parse_date(input: &str) -> (r: Result<SqlValue, DomainError>)
        ensures
            match chrono_date_parse(input@, "%Y-%m-%d"@) {
                Ok(n) => r matches Ok(SqlValue::Date(d)) && d.days_from_ce == n,
                Err(m) => r matches Err(DomainError::InvalidExpression(msg)) && msg@
                    == bad_date_message(input@, m),
            },
    {
        Self::date_from_parsed(input, parse_naive_date(input, "%Y-%m-%d"))
    }

    /// Reads a time written `HH:MM:SS`, or else `HH:MM`; the error is that of the second
    /// reading.
    pub fn parse_time(input: &str) -> (r: Result<SqlValue, DomainError>)
        ensures
            match chrono_time_parse(input@, "%H:%M:%S"@) {
                Ok(t) => r matches Ok(SqlValue::Time(v)) && (v.secs as int, v.nanos as int) == t,
                Err(_) => match chrono_time_parse(input@, "%H:%M"@) {
                    Ok(t) => r matches Ok(SqlValue::Time(v)) && (v.secs as int, v.nanos as int)
                        == t,
                    Err(m) => r matches Err(DomainError::InvalidExpression(msg)) && msg@
                        == bad_time_message(input@, m),
                },
            },
    {
        if let Ok(t) = parse_naive_time(input, "%H:%M:%S") {
            return Ok(SqlValue::Time(t));
        }
        Self::time_from_parsed(input, parse_naive_time(input, "%H:%M"))
    }
}

} // verus!
