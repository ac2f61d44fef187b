//! The calls into the `regex` and `chrono` crates.
//!
//! Verus does not read the bodies of the functions in this file. Their
//! contracts say what the two crates document for these calls, and every proof
//! that uses them rests on that.

use crate::calendar::{date_fields, date_text, is_calendar_date, ymd, DATE_FORMAT};
use crate::digits::all_digits;
use crate::grammar::{is_first_serial, serial_at, SERIAL_PATTERN};
use chrono::Datelike;
use vstd::prelude::*;

verus! {

/// Compiles `pattern` with `regex::Regex::new` and searches `haystack` with
/// `Regex::captures`, which reports the first match from the left together
/// with the text of each group.
///
/// The contract is stated for the serial pattern only. It claims that the
/// pattern compiles, that it matches exactly the ten-character shape
/// `serial_at`, so that the result holds the first eight and the last two
/// characters of the leftmost place of that shape, and that the result is
/// `None` exactly where the haystack has no such place.
#[verifier::external_body]
pub(crate) fn regex_captures(pattern: &str, haystack: &str) -> (res: Option<(String, String)>)
    requires
        pattern@ == SERIAL_PATTERN@,
    ensures
        match res {
            Some((date, counter)) => exists|i: int|
                is_first_serial(haystack@, i) && date@ == haystack@.subrange(i, i + 8)
                    && counter@ == haystack@.subrange(i + 8, i + 10),
            None => forall|i: int| !serial_at(haystack@, i),
        },
{
    let compiled = regex::Regex::new(pattern).unwrap();
    match compiled.captures(haystack) {
        Some(groups) => Some((groups[1].to_owned(), groups[2].to_owned())),
        None => None,
    }
}

/// Reads a date with `chrono::NaiveDate::parse_from_str` and hands back its
/// year, month and day.
///
/// The contract is stated for a text of exactly eight ASCII digits under the
/// format `%Y%m%d` only. It claims that chrono then reads four digits as the
/// year, two as the month and two as the day, and accepts the text exactly
/// where these numbers name a day that exists.
#[verifier::external_body]
pub(crate) fn chrono_parse_from_str(text: &str, format: &str) -> (res: Option<(i32, u32, u32)>)
    requires
        text@.len() == 8,
        all_digits(text@),
        format@ == DATE_FORMAT@,
    ensures
        match res {
            Some((year, month, day)) => is_calendar_date(date_fields(text@)) && date_fields(
                text@,
            ) == ymd(year as int, month as int, day as int),
            None => !is_calendar_date(date_fields(text@)),
        },
{
    match chrono::NaiveDate::parse_from_str(text, format) {
        Ok(date) => Some((date.year(), date.month(), date.day())),
        Err(_) => None,
    }
}

/// Writes a date with `chrono::NaiveDate::format`.
///
/// The contract is stated for a day that exists in the years 0 to 9999 under
/// the format `%Y%m%d` only. It claims that chrono then writes the year with
/// four digits, the month with two and the day with two, each padded with
/// zeros.
#[verifier::external_body]
pub(crate) fn chrono_format(year: i32, month: u32, day: u32, format: &str) -> (res: String)
    requires
        is_calendar_date(ymd(year as int, month as int, day as int)),
        format@ == DATE_FORMAT@,
    ensures
        res@ == date_text(ymd(year as int, month as int, day as int)),
{
    let date = chrono::NaiveDate::from_ymd_opt(year, month, day).unwrap();
    date.format(format).to_string()
}

} // verus!
