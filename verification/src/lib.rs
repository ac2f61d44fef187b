//! A daily serial number: eight digits of a calendar date followed by a
//! counter that restarts at one on every new day.
//!
//! The crate finds the serial in a line of text, decides what the next serial
//! is for a given current date, and renders it. Every function carries a
//! contract over a mathematical model of the text, and the contracts are
//! machine-checked.
//!
//! The current date is always an argument: nothing here reads a clock or a
//! file.

mod bindings;
pub mod calendar;
pub mod digits;
pub mod error;
pub mod files;
pub mod grammar;
pub mod laws;
pub mod lines;
pub mod serial;

pub use calendar::CalendarDate;
pub use error::{ParseError, RollError, SerialError};
pub use files::backup_name;
pub use lines::first_line;
pub use serial::{
    format_counter, format_date, format_serial, parse_date, parse_serial, process_one, roll,
};
