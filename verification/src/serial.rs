//! Reading a serial out of a line, and rolling it to the next one.

use crate::bindings::{chrono_format, chrono_parse_from_str, regex_captures};
use crate::calendar::{date_text, date_value, CalendarDate, Ymd, DATE_FORMAT};
use crate::digits::{
    decimal_string, decimal_text, is_all_digits, numeral_value, parse_unsigned,
};
use crate::error::{ParseError, RollError, SerialError};
use crate::grammar::{is_first_serial, lemma_serial_position, serial_parts, SERIAL_PATTERN};
use crate::lines::{first_line, leading_line};
use vstd::prelude::*;
use vstd::string::*;

verus! {

/// The text of a counter: the number in base ten, with a zero in front of a
/// single digit. Counters of a hundred and more take the digits they need.
pub open spec fn counter_text(n: nat) -> Seq<char> {
    if n < 10 {
        seq!['0'] + decimal_text(n)
    } else {
        decimal_text(n)
    }
}

/// The text of a serial: the eight digits of the date, then the counter.
pub open spec fn serial_text(date: Ymd, counter: nat) -> Seq<char> {
    date_text(date) + counter_text(counter)
}

/// The counter that follows the serial with the digits `date` and `counter`
/// on the day `today`. A date that is not a day gives `InvalidDate`; with a
/// real date, a counter that is no number gives `InvalidCounter`. Otherwise
/// the counter goes up by one if the serial is of today, and restarts at one
/// if it is of any other day, earlier or later.
pub open spec fn next_counter(date: Seq<char>, counter: Seq<char>, today: Ymd) -> Result<
    nat,
    RollError,
> {
    match date_value(date) {
        None => Err(RollError::InvalidDate),
        Some(day) => match numeral_value(counter) {
            None => Err(RollError::InvalidCounter),
            Some(n) => Ok(
                if day == today {
                    n + 1
                } else {
                    1
                },
            ),
        },
    }
}

/// The serial that follows the one with the digits `date` and `counter` on
/// the day `today`: today's date and the next counter.
pub open spec fn rolled_serial(date: Seq<char>, counter: Seq<char>, today: Ymd) -> Result<
    Seq<char>,
    RollError,
> {
    match next_counter(date, counter, today) {
        Ok(n) => Ok(serial_text(today, n)),
        Err(e) => Err(e),
    }
}

/// A result that holds a string, seen as a result that holds its characters.
pub open spec fn text_result<E>(r: Result<String, E>) -> Result<Seq<char>, E> {
    match r {
        Ok(s) => Ok(s@),
        Err(e) => Err(e),
    }
}

/// A result that holds two strings, seen as a result that holds their
/// characters.
pub open spec fn parts_result<E>(r: Result<(String, String), E>) -> Result<
    (Seq<char>, Seq<char>),
    E,
> {
    match r {
        Ok((a, b)) => Ok((a@, b@)),
        Err(e) => Err(e),
    }
}

/// Finds the first serial in `input` and returns its date digits and its
/// counter digits as they stand in the text. Text before and after the serial
/// is passed over. Fails with `InvalidFormat` exactly where no ten characters
/// of the input have the shape of a serial.
pub fn parse_serial(input: &str) -> (res: Result<(String, String), ParseError>)
    ensures
        parts_result(res) == match serial_parts(input@) {
            Some(parts) => Ok::<(Seq<char>, Seq<char>), ParseError>(parts),
            None => Err(ParseError::InvalidFormat),
        },
{
    match regex_captures(SERIAL_PATTERN, input) {
        Some((date, counter)) => {
            proof {
                let i = choose|i: int|
                    is_first_serial(input@, i) && date@ == input@.subrange(i, i + 8)
                        && counter@ == input@.subrange(i + 8, i + 10);
                lemma_serial_position(input@, i);
            }
            Ok((date, counter))
        },
        None => {
            proof {
                lemma_serial_position(input@, 0);
            }
            Err(ParseError::InvalidFormat)
        },
    }
}

/// Reads a date written as `YYYYMMDD`: exactly eight ASCII digits that name a
/// day that exists. Returns `None` for every other text.
pub fn parse_date(text: &str) -> (res: Option<CalendarDate>)
    ensures
        match res {
            Some(date) => date_value(text@) == Some(date@),
            None => date_value(text@) is None,
        },
{
    if !is_all_digits(text) || text.unicode_len() != 8 {
        return None;
    }
    match chrono_parse_from_str(text, DATE_FORMAT) {
        Some((year, month, day)) => CalendarDate::from_ymd_opt(year, month, day),
        None => None,
    }
}

/// Writes a date as `YYYYMMDD`.
pub fn format_date(date: CalendarDate) -> (res: String)
    ensures
        res@ == date_text(date@),
{
    chrono_format(date.year(), date.month(), date.day(), DATE_FORMAT)
}

/// Writes a counter with at least two digits.
pub fn format_counter(counter: u128) -> (res: String)
    ensures
        res@ == counter_text(counter as nat),
{
    let digits = decimal_string(counter);
    if counter < 10 {
        proof {
            reveal_strlit("0");
        }
        "0".to_owned().concat(digits.as_str())
    } else {
        digits
    }
}

/// Writes the serial of `date` with the counter `counter`.
pub fn format_serial(date: CalendarDate, counter: u128) -> (res: String)
    ensures
        res@ == serial_text(date@, counter as nat),
{
    let tail = format_counter(counter);
    format_date(date).concat(tail.as_str())
}

/// Computes the serial that follows the one with the digits `date_string`
/// and `counter_string`, on the day `today`.
///
/// The date digits are read strictly as `YYYYMMDD` and the counter as an
/// unsigned decimal number. A serial of today gets its counter raised by one;
/// a serial of any other day, past or future, is replaced by today's date
/// with the counter `01`.
pub fn roll(date_string: &str, counter_string: &str, today: CalendarDate) -> (res: Result<
    String,
    RollError,
>)
    ensures
        text_result(res) == rolled_serial(date_string@, counter_string@, today@),
{
    let date = match parse_date(date_string) {
        Some(date) => date,
        None => {
            return Err(RollError::InvalidDate);
        },
    };
    let counter = match parse_unsigned(counter_string) {
        Some(counter) => counter,
        None => {
            return Err(RollError::InvalidCounter);
        },
    };
    let same_day = date.year() == today.year() && date.month() == today.month() && date.day()
        == today.day();
    let next: u128 = if same_day {
        counter as u128 + 1
    } else {
        1
    };
    Ok(format_serial(today, next))
}

/// The counter that follows the serial in the first line of `content` on the
/// day `today`. A first line without a serial gives `InvalidFormat`; a serial
/// that cannot be rolled gives the error of the roll.
pub open spec fn processed_counter(content: Seq<char>, today: Ymd) -> Result<nat, SerialError> {
    match serial_parts(leading_line(content)) {
        None => Err(SerialError::Parse(ParseError::InvalidFormat)),
        Some((date, counter)) => match next_counter(date, counter, today) {
            Ok(n) => Ok(n),
            Err(e) => Err(SerialError::Roll(e)),
        },
    }
}

/// The serial that follows the one in the first line of `content` on the day
/// `today`.
pub open spec fn processed_serial(content: Seq<char>, today: Ymd) -> Result<
    Seq<char>,
    SerialError,
> {
    match processed_counter(content, today) {
        Ok(n) => Ok(serial_text(today, n)),
        Err(e) => Err(e),
    }
}

/// Computes the next serial from the content of a serial file.
///
/// Only the first line of `content` is read. The first serial in it is
/// rolled on the day `today`. The result is the new serial alone: whatever
/// stood around the old one is not kept.
pub fn process_one(content: &str, today: CalendarDate) -> (res: Result<String, SerialError>)
    ensures
        text_result(res) == processed_serial(content@, today@),
{
    let line = first_line(content);
    let (date, counter) = match parse_serial(line) {
        Ok(parts) => parts,
        Err(e) => {
            return Err(SerialError::Parse(e));
        },
    };
    match roll(date.as_str(), counter.as_str(), today) {
        Ok(serial) => Ok(serial),
        Err(e) => Err(SerialError::Roll(e)),
    }
}

} // verus!
