//! What can go wrong, and how it is reported.

use vstd::prelude::*;
use vstd::string::StringExecFns;

verus! {

/// A reason to give up. Every one of them is final: nothing is retried and
/// nothing is skipped.
#[derive(Clone, Debug, PartialEq, Eq)]
pub enum Error {
    /// The duration text is not a sequence of magnitude-and-unit pairs.
    InvalidDurationSyntax,
    /// A unit word in the duration text is not in the table of units.
    UnknownUnit,
    /// A count of nanoseconds, months or years left the range that is held.
    ArithmeticOverflow,
    /// `text` could not be read as a timestamp written in `format`.
    TimestampParseError { text: String, format: String },
    /// An argument that must be given was not.
    MissingRequiredArgument,
    /// A file of samples exists but could not be read.
    FileNotReadable,
}

impl Error {
    /// The text of the message for this error.
    pub open spec fn message_text(self) -> Seq<char> {
        match self {
            Error::InvalidDurationSyntax => "invalid duration syntax"@,
            Error::UnknownUnit => "unknown unit in duration"@,
            Error::ArithmeticOverflow => "arithmetic overflow"@,
            Error::TimestampParseError { text, format } => "timestamp \""@ + text@
                + "\" does not match format \""@ + format@ + "\""@,
            Error::MissingRequiredArgument => "missing required argument"@,
            Error::FileNotReadable => "file not readable"@,
        }
    }

    /// A message for the error stream. For a timestamp it quotes the text
    /// that failed and the format it was held against.
    pub fn message(&self) -> (r: String)
        ensures
            r@ == self.message_text(),
    {
        match self {
            Error::InvalidDurationSyntax => String::from_str("invalid duration syntax"),
            Error::UnknownUnit => String::from_str("unknown unit in duration"),
            Error::ArithmeticOverflow => String::from_str("arithmetic overflow"),
            Error::TimestampParseError { text, format } => {
                let mut m = String::from_str("timestamp \"");
                m.append(text.as_str());
                m.append("\" does not match format \"");
                m.append(format.as_str());
                m.append("\"");
                m
            },
            Error::MissingRequiredArgument => String::from_str("missing required argument"),
            Error::FileNotReadable => String::from_str("file not readable"),
        }
    }

    /// The text of the report of this error in a run with the offset
    /// `offset` and, where the samples come from a file, its `path`.
    pub open spec fn report_text(self, offset: Seq<char>, path: Option<Seq<char>>) -> Seq<char> {
        match self {
            Error::InvalidDurationSyntax | Error::UnknownUnit | Error::ArithmeticOverflow => {
                self.message_text() + ": \""@ + offset + "\""@
            },
            Error::FileNotReadable => match path {
                Some(p) => self.message_text() + ": \""@ + p + "\""@,
                None => self.message_text(),
            },
            _ => self.message_text(),
        }
    }

    /// A report for the error stream that names the input at fault: the
    /// message, followed by the offset where the fault lies in the duration
    /// or in applying it, and by the path where a file could not be read.
    /// A timestamp is named by its message.
    pub fn report(&self, offset: &str, path: Option<&str>) -> (r: String)
        ensures
            r@ == self.report_text(
                offset@,
                match path {
                    Some(p) => Some(p@),
                    None => None,
                },
            ),
    {
        let mut r = self.message();
        match self {
            Error::InvalidDurationSyntax | Error::UnknownUnit | Error::ArithmeticOverflow => {
                r.append(": \"");
                r.append(offset);
                r.append("\"");
            },
            Error::FileNotReadable => match path {
                Some(p) => {
                    r.append(": \"");
                    r.append(p);
                    r.append("\"");
                },
                None => {},
            },
            _ => {},
        }
        r
    }
}

} // verus!
