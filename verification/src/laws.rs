//! What holds of reading, writing and rolling serials, for all inputs.

use crate::calendar::{date_text, is_calendar_date, lemma_date_text_value, Ymd};
use crate::digits::{
    all_digits, decimal_text, decimal_value, fixed_text, lemma_decimal_text_value, numeral_value,
};
use crate::error::{RollError, SerialError};
use crate::grammar::{lemma_first_serial_from, serial_at, serial_parts, serial_position};
use crate::lines::{leading_line, lemma_line_length_is};
use crate::serial::{
    counter_text, next_counter, processed_counter, processed_serial, rolled_serial, serial_text,
};
use vstd::prelude::*;

verus! {

/// The text of a counter denotes that counter again, as long as the counter
/// fits in 64 bits.
pub proof fn lemma_counter_text_value(n: nat)
    requires
        n <= u64::MAX,
    ensures
        counter_text(n).len() >= 2,
        all_digits(counter_text(n)),
        numeral_value(counter_text(n)) == Some(n),
{
    lemma_decimal_text_value(n);
    if n < 10 {
        assert(counter_text(n).drop_last() =~= seq!['0']);
        assert(decimal_value(seq!['0']) == 0) by {
            reveal_with_fuel(decimal_value, 2);
        }
    } else {
        lemma_decimal_text_value(n / 10);
    }
}

/// A counter below a hundred is written with exactly two digits.
pub proof fn lemma_counter_text_two_digits(n: nat)
    requires
        n <= 99,
    ensures
        counter_text(n) == fixed_text(n, 2),
{
    reveal_with_fuel(fixed_text, 3);
    reveal_with_fuel(decimal_text, 2);
}

/// Reading gives back what was written. For every day of the years 2000 to
/// 2039 and every counter up to 99, the serial written for them is ten
/// characters long and has the shape of a serial at its very beginning, and
/// reading it yields the date digits and the counter digits that were
/// written.
pub proof fn lemma_parse_format_round_trip(date: Ymd, counter: nat)
    requires
        is_calendar_date(date),
        2000 <= date.year <= 2039,
        counter <= 99,
    ensures
        serial_text(date, counter).len() == 10,
        serial_position(serial_text(date, counter)) == Some(0int),
        serial_parts(serial_text(date, counter)) == Some(
            (date_text(date), counter_text(counter)),
        ),
{
    lemma_counter_text_two_digits(counter);
    reveal_with_fuel(fixed_text, 5);
    assert(serial_at(serial_text(date, counter), 0));
}

/// A text without a line feed is its own first line.
pub proof fn lemma_single_line(s: Seq<char>)
    requires
        forall|i: int| 0 <= i < s.len() ==> s[i] != '\n',
    ensures
        leading_line(s) == s,
{
    lemma_line_length_is(s, s.len() as int);
}

/// Rolling twice on one day never repeats a serial. Let a roll on the day
/// `today` give the counter `first`, so that it wrote today's date digits
/// followed by the digits of `first`. As long as `first` fits in 64 bits,
/// rolling these date digits and counter digits on the same day gives
/// `first + 1`.
pub proof fn lemma_roll_again_increments(
    date: Seq<char>,
    counter: Seq<char>,
    today: Ymd,
    first: nat,
)
    requires
        is_calendar_date(today),
        next_counter(date, counter, today) == Ok::<nat, RollError>(first),
        first <= u64::MAX,
    ensures
        first >= 1,
        rolled_serial(date, counter, today) == Ok::<Seq<char>, RollError>(
            date_text(today) + counter_text(first),
        ),
        next_counter(date_text(today), counter_text(first), today) == Ok::<nat, RollError>(
            first + 1,
        ),
{
    lemma_date_text_value(today);
    lemma_counter_text_value(first);
}

/// Running twice on one day never repeats a serial. Let a run over `content`
/// on the day `today` give the counter `first`. If `today` is in the years
/// that a serial can hold, 2000 to 2039, and `first` still has two digits,
/// then a run over the serial that the first run wrote, on the same day,
/// gives the counter `first + 1`.
pub proof fn lemma_process_again_increments(content: Seq<char>, today: Ymd, first: nat)
    requires
        is_calendar_date(today),
        2000 <= today.year <= 2039,
        processed_counter(content, today) == Ok::<nat, SerialError>(first),
        first <= 99,
    ensures
        processed_serial(content, today) == Ok::<Seq<char>, SerialError>(
            serial_text(today, first),
        ),
        processed_counter(serial_text(today, first), today) == Ok::<
            nat,
            SerialError,
        >(first + 1),
{
    lemma_parse_format_round_trip(today, first);
    lemma_date_text_value(today);
    lemma_counter_text_value(first);
    lemma_single_line(serial_text(today, first));
}

/// A run never gives a counter above a hundred, and never zero: the counter
/// it reads has two digits.
pub proof fn lemma_processed_counter_range(content: Seq<char>, today: Ymd, n: nat)
    requires
        processed_counter(content, today) == Ok::<nat, SerialError>(n),
    ensures
        1 <= n <= 100,
{
    lemma_first_serial_from(leading_line(content), 0);
    reveal_with_fuel(decimal_value, 3);
}

} // verus!
