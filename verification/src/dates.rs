//! Calendar-date handling, delegated to the `chrono` crate.
//!
//! The service encodes the bounds of a date scale as `YYYY-MM-DD` strings
//! and a question's resolve time as `YYYY-MM-DDTHH:MM:SSZ`; both are turned
//! into non-leap seconds since midnight, January 1st, 1970 (UTC). The
//! parsing and calendar arithmetic are chrono's; what each string denotes
//! is given a name here, and the contracts above speak of that name.

use vstd::prelude::*;

verus! {

/// The number of non-leap seconds since the epoch denoted by a `YYYY-MM-DD`
/// date string (interpreted as midnight UTC), or `None` where the string is
/// not a properly formatted date. A function of the string alone.
pub uninterp spec fn date_str_secs(s: Seq<char>) -> Option<int>;

/// The number of non-leap seconds since the epoch denoted by a
/// `YYYY-MM-DDTHH:MM:SSZ` timestamp string (UTC), or `None` where the
/// string is not properly formatted. A function of the string alone.
pub uninterp spec fn datetime_str_secs(s: Seq<char>) -> Option<int>;

/// Converts a date in the format returned by Metaculus (`YYYY-MM-DD`) into
/// a number of non-leap seconds since midnight, January 1st, 1970, or
/// `None` if the string is not a properly formatted date.
///
/// Relies on chrono's `NaiveDate::parse_from_str`, `NaiveDate::and_hms_opt`
/// and `DateTime::timestamp`: parsing a `%Y-%m-%d` string and counting the
/// seconds since the epoch depend on the string alone.
#[verifier::external_body]
pub(crate) fn parse_date_secs(s: &str) -> (r: Option<i64>)
    ensures
        match r {
            Some(n) => date_str_secs(s@) == Some(n as int),
            None => date_str_secs(s@) is None,
        },
{
    let date = chrono::NaiveDate::parse_from_str(s, "%Y-%m-%d").ok()?;
    Some(date.and_hms_opt(0, 0, 0)?.and_utc().timestamp())
}

/// Converts a timestamp in the format returned by Metaculus
/// (`YYYY-MM-DDTHH:MM:SSZ`) into a number of non-leap seconds since the
/// epoch, or `None` if the string is not properly formatted.
///
/// Relies on chrono's `NaiveDateTime::parse_from_str` and
/// `DateTime::timestamp`: parsing a `%Y-%m-%dT%H:%M:%SZ` string and
/// counting the seconds since the epoch depend on the string alone.
#[verifier::external_body]
pub(crate) fn parse_datetime_secs(s: &str) -> (r: Option<i64>)
    ensures
        match r {
            Some(n) => datetime_str_secs(s@) == Some(n as int),
            None => datetime_str_secs(s@) is None,
        },
{
    let dt = chrono::NaiveDateTime::parse_from_str(s, "%Y-%m-%dT%H:%M:%SZ").ok()?;
    Some(dt.and_utc().timestamp())
}

/// The current time as non-leap seconds since the epoch: the default
/// instant a prediction query is evaluated at.
///
/// Relies on chrono's `Utc::now`; nothing is promised of the clock's value.
#[verifier::external_body]
pub(crate) fn now_secs() -> i64 {
    chrono::Utc::now().timestamp()
}

} // verus!
