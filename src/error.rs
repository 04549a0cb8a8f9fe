//! What can go wrong while reading and applying a line.
use vstd::prelude::*;
use vstd::string::StringExecFns;
use crate::number::{int_error_name, int_of, parse_int, IntErrorKind};

verus! {

#[derive(Debug)]
pub enum Error {
    /// The line source or sink failed; the text says how.
    IoError(String),
    ParseError(ParseErrorKind),
    /// The input ended: the one way the read loop stops without a fault.
    UnintentionalBreak,
    /// An update named a player that was never registered.
    PlayerNotFound(String),
}

#[derive(Clone, Copy, Debug, PartialEq, Eq, Structural)]
pub enum ParseErrorKind {
    UnknownCommand,
    Incomplete,
    InvalidCellType,
    NumberFormat(IntErrorKind),
}

/// An `Error` with its texts as character sequences.
pub enum ErrorModel {
    IoError(Seq<char>),
    ParseError(ParseErrorKind),
    UnintentionalBreak,
    PlayerNotFound(Seq<char>),
}

impl View for Error {
    type V = ErrorModel;

    open spec fn view(&self) -> ErrorModel {
        match self {
            Error::IoError(s) => ErrorModel::IoError(s@),
            Error::ParseError(k) => ErrorModel::ParseError(*k),
            Error::UnintentionalBreak => ErrorModel::UnintentionalBreak,
            Error::PlayerNotFound(s) => ErrorModel::PlayerNotFound(s@),
        }
    }
}

/// A decimal `i32` value of a command or a tag; a bad number is a `NumberFormat` error.
pub open spec fn number_of(s: Seq<char>) -> Result<i32, ParseErrorKind> {
    match int_of(s) {
        Ok(n) => Ok(n),
        Err(e) => Err(ParseErrorKind::NumberFormat(e)),
    }
}

/// Reads the number in `s[lo..hi]`.
pub fn number_at(s: &Vec<char>, lo: usize, hi: usize) -> (r: Result<i32, ParseErrorKind>)
    requires
        lo <= hi <= s@.len(),
    ensures
        r == number_of(s@.subrange(lo as int, hi as int)),
{
    match parse_int(s, lo, hi) {
        Ok(n) => Ok(n),
        Err(e) => Err(ParseErrorKind::NumberFormat(e)),
    }
}

pub open spec fn parse_error_text(k: ParseErrorKind) -> Seq<char> {
    match k {
        ParseErrorKind::UnknownCommand => "Unknown command"@,
        ParseErrorKind::Incomplete => "Incomplete command"@,
        ParseErrorKind::InvalidCellType => "Invalid field cell type"@,
        ParseErrorKind::NumberFormat(e) => "Could not parse value "@ + int_error_name(e),
    }
}

pub open spec fn error_text(e: ErrorModel) -> Seq<char> {
    match e {
        ErrorModel::IoError(msg) => "IO error "@ + msg,
        ErrorModel::ParseError(k) => "Parse error "@ + parse_error_text(k),
        ErrorModel::UnintentionalBreak => "Unintentional break error"@,
        ErrorModel::PlayerNotFound(name) => "Player not found error "@ + name,
    }
}

impl ParseErrorKind {
    /// A sentence that says what went wrong.
    pub fn message(&self) -> (r: String)
        ensures
            r@ == parse_error_text(*self),
    {
        match self {
            ParseErrorKind::UnknownCommand => "Unknown command".to_owned(),
            ParseErrorKind::Incomplete => "Incomplete command".to_owned(),
            ParseErrorKind::InvalidCellType => "Invalid field cell type".to_owned(),
            ParseErrorKind::NumberFormat(e) => {
                let mut text = "Could not parse value ".to_owned();
                text.append(e.name());
                text
            },
        }
    }
}

impl Error {
    /// The kind of error, in a few words.
    pub fn description(&self) -> (r: &'static str)
        ensures
            r@ == match self@ {
                ErrorModel::IoError(_) => "io error"@,
                ErrorModel::ParseError(_) => "parse error"@,
                ErrorModel::UnintentionalBreak => "unintentional break error"@,
                ErrorModel::PlayerNotFound(_) => "player not found error"@,
            },
    {
        match self {
            Error::IoError(_) => "io error",
            Error::ParseError(_) => "parse error",
            Error::UnintentionalBreak => "unintentional break error",
            Error::PlayerNotFound(_) => "player not found error",
        }
    }

    /// A sentence that says what went wrong, with its details.
    pub fn message(&self) -> (r: String)
        ensures
            r@ == error_text(self@),
    {
        match self {
            Error::IoError(msg) => {
                let mut text = "IO error ".to_owned();
                text.append(msg.as_str());
                text
            },
            Error::ParseError(k) => {
                let mut text = "Parse error ".to_owned();
                let detail = k.message();
                text.append(detail.as_str());
                text
            },
            Error::UnintentionalBreak => "Unintentional break error".to_owned(),
            Error::PlayerNotFound(name) => {
                let mut text = "Player not found error ".to_owned();
                text.append(name.as_str());
                text
            },
        }
    }
}

} // verus!
