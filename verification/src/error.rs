//! What can go wrong when a serial is read or rolled.

use vstd::prelude::*;

verus! {

/// Why no serial was found in a line.
#[derive(Clone, Copy, Debug, PartialEq, Eq, Structural)]
pub enum ParseError {
    /// The line has no place with the shape of a serial.
    InvalidFormat,
}

/// Why a serial could not be rolled.
#[derive(Clone, Copy, Debug, PartialEq, Eq, Structural)]
pub enum RollError {
    /// The date digits do not name a day that exists.
    InvalidDate,
    /// The counter is not an unsigned decimal number.
    InvalidCounter,
}

/// Why a text could not be turned into its next serial.
#[derive(Clone, Copy, Debug, PartialEq, Eq, Structural)]
pub enum SerialError {
    /// The first line holds no serial.
    Parse(ParseError),
    /// The serial was found and could not be rolled.
    Roll(RollError),
}

impl ParseError {
    /// The text of `message`.
    pub open spec fn message_text(self) -> Seq<char> {
        "invalid format"@
    }

    /// A short description of the error.
    pub fn message(&self) -> (res: &'static str)
        ensures
            res@ == self.message_text(),
    {
        "invalid format"
    }
}

impl RollError {
    /// The text of `message`.
    pub open spec fn message_text(self) -> Seq<char> {
        match self {
            RollError::InvalidDate => "invalid date"@,
            RollError::InvalidCounter => "invalid counter"@,
        }
    }

    /// A short description of the error.
    pub fn message(&self) -> (res: &'static str)
        ensures
            res@ == self.message_text(),
    {
        match self {
            RollError::InvalidDate => "invalid date",
            RollError::InvalidCounter => "invalid counter",
        }
    }
}

impl SerialError {
    /// The text of `message`: that of the error inside.
    pub open spec fn message_text(self) -> Seq<char> {
        match self {
            SerialError::Parse(e) => e.message_text(),
            SerialError::Roll(e) => e.message_text(),
        }
    }

    /// A short description of the error.
    pub fn message(&self) -> (res: &'static str)
        ensures
            res@ == self.message_text(),
    {
        match self {
            SerialError::Parse(e) => e.message(),
            SerialError::Roll(e) => e.message(),
        }
    }
}

} // verus!
