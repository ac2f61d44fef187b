//! The shape of a serial inside a line of text, and where the first one
//! stands.

use crate::digits::is_digit;
use vstd::prelude::*;

verus! {

/// The shape of a serial as a regular expression, with one group for the
/// eight date digits and one for the two counter digits. `serial_at` says the
/// same of a sequence of characters.
pub const SERIAL_PATTERN: &'static str = "(20[0-3][0-9][01][0-9][0-3][0-9])([0-9][0-9])";

/// Ten characters from place `i` of `s` have the shape of a serial: `20`, a
/// digit up to 3 and any digit for the year; a digit up to 1 and any digit
/// for the month; a digit up to 3 and any digit for the day; two digits for
/// the counter. The shape looks at digits only, not at the calendar.
pub open spec fn serial_at(s: Seq<char>, i: int) -> bool {
    &&& 0 <= i
    &&& i + 10 <= s.len()
    &&& s[i] == '2'
    &&& s[i + 1] == '0'
    &&& '0' <= s[i + 2] <= '3'
    &&& is_digit(s[i + 3])
    &&& '0' <= s[i + 4] <= '1'
    &&& is_digit(s[i + 5])
    &&& '0' <= s[i + 6] <= '3'
    &&& is_digit(s[i + 7])
    &&& is_digit(s[i + 8])
    &&& is_digit(s[i + 9])
}

/// A serial stands at place `i` of `s`, and none stands at an earlier place.
pub open spec fn is_first_serial(s: Seq<char>, i: int) -> bool {
    &&& serial_at(s, i)
    &&& forall|j: int| 0 <= j < i ==> !serial_at(s, j)
}

/// The place of the first serial at or after `from`, searched from left to
/// right.
pub open spec fn first_serial_from(s: Seq<char>, from: int) -> Option<int>
    decreases s.len() - from,
{
    if from < 0 || from + 10 > s.len() {
        None
    } else if serial_at(s, from) {
        Some(from)
    } else {
        first_serial_from(s, from + 1)
    }
}

/// The place of the first serial in `s`, if it holds one.
pub open spec fn serial_position(s: Seq<char>) -> Option<int> {
    first_serial_from(s, 0)
}

/// The date digits and the counter digits of the first serial in `line`:
/// its first eight characters and its last two.
pub open spec fn serial_parts(line: Seq<char>) -> Option<(Seq<char>, Seq<char>)> {
    match serial_position(line) {
        Some(i) => Some((line.subrange(i, i + 8), line.subrange(i + 8, i + 10))),
        None => None,
    }
}

/// What the search from `from` finds: the least place of a serial that is not
/// before `from`, or nothing where there is none.
pub proof fn lemma_first_serial_from(s: Seq<char>, from: int)
    requires
        0 <= from,
    ensures
        match first_serial_from(s, from) {
            Some(i) => from <= i && serial_at(s, i) && forall|j: int|
                from <= j < i ==> !serial_at(s, j),
            None => forall|j: int| from <= j ==> !serial_at(s, j),
        },
    decreases s.len() - from,
{
    if from + 10 > s.len() {
    } else if serial_at(s, from) {
    } else {
        lemma_first_serial_from(s, from + 1);
    }
}

/// The first serial of a text stands where the search from the left finds
/// it, and nowhere else.
pub proof fn lemma_serial_position(s: Seq<char>, i: int)
    ensures
        is_first_serial(s, i) <==> serial_position(s) == Some(i),
        serial_position(s) is None <==> forall|j: int| !serial_at(s, j),
{
    lemma_first_serial_from(s, 0);
}

} // verus!
