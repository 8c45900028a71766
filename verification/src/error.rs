//! Errors reported while reading GEDCOM data.
use vstd::prelude::*;
use vstd::string::StringExecFns;
use crate::text::{append_decimal, decimal};

verus! {

/// What can go wrong while reading GEDCOM data.
///
/// Each variant carries the line (where one is known) and enough context for a
/// reader of the message to find the problem in the file.
#[derive(Debug)]
#[allow(inconsistent_fields)]
pub enum GedcomError {
    /// A parsing error, with the line number and a message.
    ParseError { line: u32, message: String },
    /// An invalid GEDCOM format error.
    InvalidFormat(String),
    /// An encoding error.
    EncodingError(String),
    /// An invalid or unrecognized tag was encountered.
    InvalidTag { line: usize, tag: String },
    /// An unexpected level was encountered in the GEDCOM structure.
    UnexpectedLevel { line: usize, expected: u8, found: u8 },
    /// A required value was missing for a tag.
    MissingRequiredValue { line: usize, tag: String },
    /// A value had an invalid format.
    InvalidValueFormat { line: usize, value: String, expected_format: String },
    /// A file size limit was exceeded.
    FileSizeLimitExceeded { size: usize, max_size: usize },
    /// An I/O error occurred.
    IoError(String),
}

/// The text that describes an error to a person.
pub open spec fn error_text(e: GedcomError) -> Seq<char> {
    match e {
        GedcomError::ParseError { line, message } =>
            "Parse error at line "@ + decimal(line as nat) + ": "@ + message@,
        GedcomError::InvalidFormat(msg) => "Invalid GEDCOM format: "@ + msg@,
        GedcomError::EncodingError(msg) => "Encoding error: "@ + msg@,
        GedcomError::InvalidTag { line, tag } =>
            "Invalid tag at line "@ + decimal(line as nat) + ": '"@ + tag@ + "'"@,
        GedcomError::UnexpectedLevel { line, expected, found } =>
            "Unexpected level at line "@ + decimal(line as nat) + ": expected "@
                + decimal(expected as nat) + ", found "@ + decimal(found as nat),
        GedcomError::MissingRequiredValue { line, tag } =>
            "Missing required value for tag '"@ + tag@ + "' at line "@ + decimal(line as nat),
        GedcomError::InvalidValueFormat { line, value, expected_format } =>
            "Invalid value format at line "@ + decimal(line as nat) + ": '"@ + value@
                + "' (expected "@ + expected_format@ + ")"@,
        GedcomError::FileSizeLimitExceeded { size, max_size } =>
            "File size limit exceeded: "@ + decimal(size as nat) + " bytes (max: "@
                + decimal(max_size as nat) + " bytes)"@,
        GedcomError::IoError(msg) => "I/O error: "@ + msg@,
    }
}

impl GedcomError {
    /// The message that describes this error to a person.
    pub fn to_display_string(&self) -> (r: String)
        ensures
            r@ == error_text(*self),
    {
        match self {
            GedcomError::ParseError { line, message } => {
                let mut s = String::from_str("Parse error at line ");
                append_decimal(&mut s, *line as u64);
                s.append(": ");
                s.append(message.as_str());
                s
            },
            GedcomError::InvalidFormat(msg) => {
                let mut s = String::from_str("Invalid GEDCOM format: ");
                s.append(msg.as_str());
                s
            },
            GedcomError::EncodingError(msg) => {
                let mut s = String::from_str("Encoding error: ");
                s.append(msg.as_str());
                s
            },
            GedcomError::InvalidTag { line, tag } => {
                let mut s = String::from_str("Invalid tag at line ");
                append_decimal(&mut s, *line as u64);
                s.append(": '");
                s.append(tag.as_str());
                s.append("'");
                s
            },
            GedcomError::UnexpectedLevel { line, expected, found } => {
                let mut s = String::from_str("Unexpected level at line ");
                append_decimal(&mut s, *line as u64);
                s.append(": expected ");
                append_decimal(&mut s, *expected as u64);
                s.append(", found ");
                append_decimal(&mut s, *found as u64);
                s
            },
            GedcomError::MissingRequiredValue { line, tag } => {
                let mut s = String::from_str("Missing required value for tag '");
                s.append(tag.as_str());
                s.append("' at line ");
                append_decimal(&mut s, *line as u64);
                s
            },
            GedcomError::InvalidValueFormat { line, value, expected_format } => {
                let mut s = String::from_str("Invalid value format at line ");
                append_decimal(&mut s, *line as u64);
                s.append(": '");
                s.append(value.as_str());
                s.append("' (expected ");
                s.append(expected_format.as_str());
                s.append(")");
                s
            },
            GedcomError::FileSizeLimitExceeded { size, max_size } => {
                let mut s = String::from_str("File size limit exceeded: ");
                append_decimal(&mut s, *size as u64);
                s.append(" bytes (max: ");
                append_decimal(&mut s, *max_size as u64);
                s.append(" bytes)");
                s
            },
            GedcomError::IoError(msg) => {
                let mut s = String::from_str("I/O error: ");
                s.append(msg.as_str());
                s
            },
        }
    }
}

/// Whether `e` is a parse error at `line` with the message `message`.
pub open spec fn is_parse_error(e: GedcomError, line: u32, message: Seq<char>) -> bool {
    e matches GedcomError::ParseError { line: l, message: m } && l == line && m@ == message
}

/// The error of an input or output operation of std.
#[verifier::external_type_specification]
#[verifier::external_body]
pub struct ExIoError(std::io::Error);

/// The message of an I/O error (`ToString::to_string` on `std::io::Error`).
/// Nothing is claimed of its text.
#[verifier::external_body]
pub(crate) fn io_error_message(err: &std::io::Error) -> String {
    err.to_string()
}

impl From<std::io::Error> for GedcomError {
    /// An I/O error, with the error's message.
    fn from(err: std::io::Error) -> (r: Self)
        ensures
            r is IoError,
    {
        GedcomError::IoError(io_error_message(&err))
    }
}

impl vstd::std_specs::convert::FromSpecImpl<std::io::Error> for GedcomError {
    open spec fn obeys_from_spec() -> bool {
        false
    }

    open spec fn from_spec(v: std::io::Error) -> Self {
        GedcomError::IoError(vstd::pervasive::arbitrary())
    }
}

} // verus!

