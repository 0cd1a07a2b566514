//! Calendar arithmetic, resting on chrono for the Gregorian calendar.
//!
//! A date is carried through the library as a plain day count in the
//! proleptic Gregorian calendar (day 1 is January 1 of year 1 CE), so that
//! arithmetic on dates is ordinary integer arithmetic. Only parsing and
//! formatting call into chrono.

use vstd::prelude::*;

verus! {

/// The day count that an ISO `"YYYY-MM-DD"` string parses to, or `None`
/// when it is not a valid date.
pub uninterp spec fn iso_date_days(s: Seq<char>) -> Option<int>;

/// The display form (`"%b %d, %Y"`, e.g. "Jan 15, 2026") of a parseable
/// ISO date string.
pub uninterp spec fn display_date(s: Seq<char>) -> Seq<char>;

/// The ISO `"YYYY-MM-DD"` string for a day count, or `None` when the day
/// count lies outside the representable calendar.
pub uninterp spec fn iso_of_days(d: int) -> Option<Seq<char>>;

/// Relies on chrono's `NaiveDate::parse_from_str` with the `%Y-%m-%d`
/// format, and on `Datelike::num_days_from_ce` to turn the date into a day
/// count. chrono dates span the years -262143..=262142, so every day count
/// it produces lies well within +/- 96,000,000.
#[verifier::external_body]
pub fn parse_iso_date(s: &str) -> (r: Option<i32>)
    ensures
        r is Some <==> iso_date_days(s@) is Some,
        r matches Some(d) ==> iso_date_days(s@) == Some(d as int),
        r matches Some(d) ==> -96_000_000 <= d <= 96_000_000,
{
    chrono::NaiveDate::parse_from_str(s, "%Y-%m-%d")
        .ok()
        .map(|d| chrono::Datelike::num_days_from_ce(&d))
}

/// Relies on chrono's `NaiveDate::parse_from_str` with `%Y-%m-%d` and on
/// its `%b %d, %Y` formatting, which uses fixed English month names: the
/// result depends on the input string alone, and formatting succeeds
/// exactly when parsing does.
#[verifier::external_body]
pub fn format_display_date(s: &str) -> (r: Option<String>)
    ensures
        r is Some <==> iso_date_days(s@) is Some,
        r matches Some(t) ==> t@ == display_date(s@),
{
    chrono::NaiveDate::parse_from_str(s, "%Y-%m-%d")
        .ok()
        .map(|d| d.format("%b %d, %Y").to_string())
}

/// Relies on chrono's `NaiveDate::from_num_days_from_ce_opt`, which
/// returns `None` exactly when the day count falls outside the
/// representable calendar, and on its `%Y-%m-%d` formatting.
#[verifier::external_body]
pub fn format_iso_date(days: i32) -> (r: Option<String>)
    ensures
        r is Some <==> iso_of_days(days as int) is Some,
        r matches Some(t) ==> Some(t@) == iso_of_days(days as int),
{
    chrono::NaiveDate::from_num_days_from_ce_opt(days).map(|d| d.format("%Y-%m-%d").to_string())
}

} // verus!
