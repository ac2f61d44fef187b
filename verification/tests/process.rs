use chrono::{Datelike, Local, NaiveDate};
use serial_roller::{
    backup_name, first_line, parse_serial, process_one, CalendarDate, ParseError, RollError,
    SerialError,
};

/// The content of a serial file as it is kept on disk: the serial at the
/// start of the first line, and a note after it.
const SERIAL_FILE: &str = "2001052742 ; serial\n";

fn day(year: i32, month: u32, day: u32) -> CalendarDate {
    CalendarDate::from_ymd_opt(year, month, day).unwrap()
}

fn now() -> (CalendarDate, String) {
    let t = Local::now();
    let today = day(t.year(), t.month(), t.day());
    let t = NaiveDate::from_ymd_opt(t.year(), t.month(), t.day()).unwrap();
    (today, t.format("%Y%m%d").to_string())
}

#[test]
fn test_parse_serial() {
    let input = SERIAL_FILE.to_owned();

    let (d, s) = parse_serial(&input).unwrap();
    assert_eq!("20010527", d);
    assert_eq!("42", s);
}

#[test]
fn test_process_one_old() {
    let (today, t) = now();
    let t = format!("{t}01");

    let input = SERIAL_FILE.to_owned();
    if let Ok(res) = process_one(&input, today) {
        assert_eq!(t, res)
    }
}

#[test]
fn test_process_one_now() {
    let (today, t) = now();
    let t2 = format!("{t}02");

    let input = t;
    if let Ok(res) = process_one(&input, today) {
        assert_eq!(t2, res)
    }
}

#[test]
fn old_serial_is_replaced_by_first_of_today() {
    let (today, t) = now();
    assert_eq!(process_one(SERIAL_FILE, today), Ok(format!("{t}01")));
}

#[test]
fn date_without_counter_is_no_serial() {
    let (today, t) = now();
    assert_eq!(
        process_one(&t, today),
        Err(SerialError::Parse(ParseError::InvalidFormat))
    );
}

#[test]
fn serial_of_today_is_incremented() {
    let (today, t) = now();
    if (2000..=2039).contains(&today.year()) {
        assert_eq!(process_one(&format!("{t}01"), today), Ok(format!("{t}02")));
    }
}

#[test]
fn same_day_increments_counter() {
    let res = process_one("2001052742 garbage-text", day(2001, 5, 27));
    assert_eq!(res, Ok("2001052743".to_owned()));
}

#[test]
fn digits_split_by_a_space_are_no_serial() {
    let res = process_one("20010527 42 garbage-text", day(2001, 5, 27));
    assert_eq!(res, Err(SerialError::Parse(ParseError::InvalidFormat)));
}

#[test]
fn next_day_resets_counter() {
    let res = process_one("2001052742", day(2001, 5, 28));
    assert_eq!(res, Ok("2001052801".to_owned()));
}

#[test]
fn future_serial_is_reset_to_today() {
    let res = process_one("2030010177", day(2001, 5, 28));
    assert_eq!(res, Ok("2001052801".to_owned()));
}

#[test]
fn text_without_serial_is_invalid_format() {
    for today in [day(2001, 5, 27), day(1999, 12, 31), day(2039, 12, 31)] {
        assert_eq!(
            process_one("notaserial", today),
            Err(SerialError::Parse(ParseError::InvalidFormat))
        );
    }
}

#[test]
fn empty_text_is_invalid_format() {
    assert_eq!(
        process_one("", day(2001, 5, 27)),
        Err(SerialError::Parse(ParseError::InvalidFormat))
    );
}

#[test]
fn shape_with_month_thirteen_is_invalid_date() {
    assert_eq!(
        process_one("2001133005", day(2001, 5, 27)),
        Err(SerialError::Roll(RollError::InvalidDate))
    );
}

#[test]
fn shape_with_day_zero_is_invalid_date() {
    assert_eq!(
        process_one("2001050042", day(2001, 5, 27)),
        Err(SerialError::Roll(RollError::InvalidDate))
    );
    assert_eq!(
        process_one("2001000142", day(2001, 5, 27)),
        Err(SerialError::Roll(RollError::InvalidDate))
    );
    assert_eq!(
        process_one("2001053942", day(2001, 5, 27)),
        Err(SerialError::Roll(RollError::InvalidDate))
    );
}

#[test]
fn two_runs_on_one_day_count_up() {
    let today = day(2001, 5, 27);
    let first = process_one("2001052701", today).unwrap();
    assert_eq!(first, "2001052702");
    let second = process_one(&first, today).unwrap();
    assert_eq!(second, "2001052703");
}

#[test]
fn counter_ninety_nine_grows_to_three_digits() {
    let res = process_one("2001052799", day(2001, 5, 27));
    assert_eq!(res, Ok("20010527100".to_owned()));
}

#[test]
fn three_digit_counter_is_read_by_its_first_two_digits() {
    let res = process_one("20010527100", day(2001, 5, 27));
    assert_eq!(res, Ok("2001052711".to_owned()));
}

#[test]
fn counter_zero_becomes_one() {
    let res = process_one("2001052700", day(2001, 5, 27));
    assert_eq!(res, Ok("2001052701".to_owned()));
}

#[test]
fn only_the_first_line_is_read() {
    let today = day(2001, 5, 27);
    assert_eq!(
        process_one("no serial here\n2001052742\n", today),
        Err(SerialError::Parse(ParseError::InvalidFormat))
    );
    assert_eq!(
        process_one("2001052742\n2001052755\n", today),
        Ok("2001052743".to_owned())
    );
    assert_eq!(
        process_one("\n2001052742", today),
        Err(SerialError::Parse(ParseError::InvalidFormat))
    );
}

#[test]
fn surrounding_text_is_dropped() {
    let res = process_one("serial = 2001052742 ; do not edit\r\nrest", day(2001, 5, 27));
    assert_eq!(res, Ok("2001052743".to_owned()));
}

#[test]
fn today_outside_the_serial_years_is_written_all_the_same() {
    assert_eq!(
        process_one("2001052742", day(2040, 1, 1)),
        Ok("2040010101".to_owned())
    );
    assert_eq!(
        process_one("2040010101", day(2040, 1, 1)),
        Err(SerialError::Parse(ParseError::InvalidFormat))
    );
    assert_eq!(
        process_one("2001052742", day(987, 6, 5)),
        Ok("0987060501".to_owned())
    );
}

#[test]
fn first_line_stops_at_the_line_feed() {
    assert_eq!(first_line(""), "");
    assert_eq!(first_line("\n"), "");
    assert_eq!(first_line("abc"), "abc");
    assert_eq!(first_line("abc\n"), "abc");
    assert_eq!(first_line("abc\ndef\nghi"), "abc");
    assert_eq!(first_line("abc\r\ndef"), "abc\r");
    assert_eq!(first_line("\nabc"), "");
}

#[test]
fn first_line_counts_characters_not_bytes() {
    assert_eq!(first_line("é√日本\nx"), "é√日本");
    assert_eq!(first_line("日本"), "日本");
    assert_eq!(
        process_one("日本 2001052742 √\nx", day(2001, 5, 27)),
        Ok("2001052743".to_owned())
    );
}

#[test]
fn error_messages() {
    assert_eq!(ParseError::InvalidFormat.message(), "invalid format");
    assert_eq!(RollError::InvalidDate.message(), "invalid date");
    assert_eq!(RollError::InvalidCounter.message(), "invalid counter");
    assert_eq!(
        SerialError::Parse(ParseError::InvalidFormat).message(),
        "invalid format"
    );
    assert_eq!(
        SerialError::Roll(RollError::InvalidDate).message(),
        "invalid date"
    );
    assert_eq!(
        SerialError::Roll(RollError::InvalidCounter).message(),
        "invalid counter"
    );
}

#[test]
fn backup_name_appends_old() {
    assert_eq!(backup_name("serial.txt"), "serial.txt.old");
    assert_eq!(backup_name("dir/zone.serial"), "dir/zone.serial.old");
    assert_eq!(backup_name("serial.txt.old"), "serial.txt.old.old");
    assert_eq!(backup_name(""), ".old");
}
