//! Calendar dates of the proleptic Gregorian calendar with a four-digit year,
//! and their eight-digit text `YYYYMMDD`.

use crate::digits::{all_digits, decimal_value, fixed_text, lemma_fixed_text_value, pow10};
use vstd::prelude::*;

verus! {

/// The text of a date as a `strftime` format: year, month and day without
/// anything between them. `date_text` says the same of a date.
pub const DATE_FORMAT: &'static str = "%Y%m%d";

/// A year, a month and a day as plain numbers: the model of a date.
pub struct Ymd {
    pub year: int,
    pub month: int,
    pub day: int,
}

/// The date model with the given year, month and day.
pub open spec fn ymd(year: int, month: int, day: int) -> Ymd {
    Ymd { year, month, day }
}

/// Leap years are those divisible by four, except the centuries that are not
/// divisible by four hundred.
pub open spec fn is_leap_year(year: int) -> bool {
    year % 4 == 0 && (year % 100 != 0 || year % 400 == 0)
}

/// The number of days of a month.
pub open spec fn days_in_month(year: int, month: int) -> int
    recommends
        1 <= month <= 12,
{
    if month == 2 {
        if is_leap_year(year) {
            29
        } else {
            28
        }
    } else if month == 4 || month == 6 || month == 9 || month == 11 {
        30
    } else {
        31
    }
}

/// The three numbers name a day that exists, in a year of at most four
/// digits.
pub open spec fn is_calendar_date(d: Ymd) -> bool {
    &&& 0 <= d.year <= 9999
    &&& 1 <= d.month <= 12
    &&& 1 <= d.day <= days_in_month(d.year, d.month)
}

/// The text of a date: four digits of the year, two of the month, two of the
/// day.
pub open spec fn date_text(d: Ymd) -> Seq<char> {
    fixed_text(d.year as nat, 4) + fixed_text(d.month as nat, 2) + fixed_text(d.day as nat, 2)
}

/// The numbers that an eight-digit text holds at the places of year, month
/// and day, whether or not they name a day that exists.
pub open spec fn date_fields(s: Seq<char>) -> Ymd
    recommends
        s.len() == 8,
        all_digits(s),
{
    ymd(
        decimal_value(s.subrange(0, 4)) as int,
        decimal_value(s.subrange(4, 6)) as int,
        decimal_value(s.subrange(6, 8)) as int,
    )
}

/// The date that a text denotes under strict `YYYYMMDD` reading: exactly
/// eight ASCII digits that name a day that exists. Any other text denotes no
/// date.
pub open spec fn date_value(s: Seq<char>) -> Option<Ymd> {
    if s.len() == 8 && all_digits(s) && is_calendar_date(date_fields(s)) {
        Some(date_fields(s))
    } else {
        None
    }
}

/// A calendar date. Every value names a day that exists.
#[derive(Clone, Copy, Debug, PartialEq, Eq, Structural)]
pub struct CalendarDate {
    year: i32,
    month: u32,
    day: u32,
}

impl View for CalendarDate {
    type V = Ymd;

    closed spec fn view(&self) -> Ymd {
        ymd(self.year as int, self.month as int, self.day as int)
    }
}

impl CalendarDate {
    /// What every value of the type satisfies: it names a day that exists.
    #[verifier::type_invariant]
    pub closed spec fn well_formed(self) -> bool {
        is_calendar_date(self@)
    }

    /// Makes a date from year, month and day, if they name a day that exists
    /// in the years 0 to 9999.
    pub fn from_ymd_opt(year: i32, month: u32, day: u32) -> (res: Option<CalendarDate>)
        ensures
            match res {
                Some(date) => date@ == ymd(year as int, month as int, day as int)
                    && is_calendar_date(date@),
                None => !is_calendar_date(ymd(year as int, month as int, day as int)),
            },
    {
        if year < 0 || year > 9999 || month < 1 || month > 12 || day < 1 {
            return None;
        }
        let leap = year % 4 == 0 && (year % 100 != 0 || year % 400 == 0);
        let length: u32 = if month == 2 {
            if leap {
                29
            } else {
                28
            }
        } else if month == 4 || month == 6 || month == 9 || month == 11 {
            30
        } else {
            31
        };
        if day > length {
            return None;
        }
        Some(CalendarDate { year, month, day })
    }

    /// The year, from 0 to 9999.
    pub fn year(&self) -> (res: i32)
        ensures
            res == self@.year,
            is_calendar_date(self@),
    {
        proof {
            use_type_invariant(self);
        }
        self.year
    }

    /// The month, from 1 to 12.
    pub fn month(&self) -> (res: u32)
        ensures
            res == self@.month,
            is_calendar_date(self@),
    {
        proof {
            use_type_invariant(self);
        }
        self.month
    }

    /// The day of the month, from 1.
    pub fn day(&self) -> (res: u32)
        ensures
            res == self@.day,
            is_calendar_date(self@),
    {
        proof {
            use_type_invariant(self);
        }
        self.day
    }
}

/// The text of a calendar date is eight digits long and denotes that date
/// again.
pub proof fn lemma_date_text_value(d: Ymd)
    requires
        is_calendar_date(d),
    ensures
        date_text(d).len() == 8,
        all_digits(date_text(d)),
        date_value(date_text(d)) == Some(d),
{
    let y = fixed_text(d.year as nat, 4);
    let m = fixed_text(d.month as nat, 2);
    let a = fixed_text(d.day as nat, 2);
    let s = date_text(d);
    lemma_fixed_text_value(d.year as nat, 4);
    lemma_fixed_text_value(d.month as nat, 2);
    lemma_fixed_text_value(d.day as nat, 2);
    assert(pow10(4) == 10000 && pow10(2) == 100) by {
        reveal_with_fuel(pow10, 5);
    }
    assert(s.subrange(0, 4) =~= y);
    assert(s.subrange(4, 6) =~= m);
    assert(s.subrange(6, 8) =~= a);
    assert forall|i: int| 0 <= i < s.len() implies crate::digits::is_digit(#[trigger] s[i]) by {
        if i < 4 {
        } else if i < 6 {
        } else {
        }
    }
}

} // verus!
