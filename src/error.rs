//! Errors met while reading a catalogue.
use crate::text::{decimal, decimal_text};
use vstd::prelude::*;
use vstd::string::StringExecFns;

verus! {

#[verifier::external_type_specification]
#[verifier::external_body]
pub struct ExIoError(std::io::Error);

/// Error in reading a catalogue.
#[derive(Debug)]
pub enum Error {
    /// A transport error: the line number if one applies (0 otherwise), and the error.
    Io(usize, std::io::Error),
    /// A parse error: the line number, the offending text (may be empty) and what was expected
    /// (may be empty).
    Parse(usize, String, String),
    /// A structural error: the line number if one applies (0 otherwise), and a message.
    Unexpected(usize, String),
    /// A malformed `Plural-Forms` header.
    PluralForms(String),
}

/// Relies on the `Display` of `std::io::Error`: its message. Nothing is known of the text.
#[verifier::external_body]
fn io_error_message(e: &std::io::Error) -> (r: String) {
    e.to_string()
}

/// Relies on `std::io::Error::new` with `ErrorKind::InvalidData`: an error that carries `msg`.
#[verifier::external_body]
pub(crate) fn invalid_data(msg: &str) -> (r: std::io::Error) {
    std::io::Error::new(std::io::ErrorKind::InvalidData, msg)
}

/// The message of an error that is not an I/O error.
pub open spec fn error_text(e: Error) -> Seq<char> {
    match e {
        Error::Io(_, _) => Seq::empty(),
        Error::Parse(line, got, exp) => "Parse error at line "@ + decimal(line as nat) + (if exp@.len()
            > 0 {
            " expected ‘"@ + exp@ + "’"@
        } else {
            Seq::empty()
        }) + (if got@.len() > 0 {
            ", got ‘"@ + got@ + "’"@
        } else {
            Seq::empty()
        }),
        Error::Unexpected(line, msg) => if line > 0 {
            "Unexpected error at line "@ + decimal(line as nat) + ": "@ + msg@
        } else {
            "Unexpected error: "@ + msg@
        },
        Error::PluralForms(msg) => "Error in plurals forms: "@ + msg@,
    }
}

impl Error {
    /// One human-readable line: the kind, the line number where one applies, and what was found
    /// and expected. For an I/O error, the underlying message followed by the line number when
    /// it is not 0.
    pub fn describe(&self) -> (r: String)
        ensures
            !(self is Io) ==> r@ == error_text(*self),
            self is Io && self->Io_0 > 0 ==> exists|m: Seq<char>|
                r@ == m + " at line "@ + decimal(self->Io_0 as nat),
    {
        match self {
            Error::Io(line, err) => {
                let m = io_error_message(err);
                if *line == 0 {
                    m
                } else {
                    let ghost mv = m@;
                    let r = m.concat(" at line ").concat(decimal_text(*line).as_str());
                    assert(r@ == mv + " at line "@ + decimal(*line as nat));
                    r
                }
            },
            Error::Parse(line, got, exp) => {
                let mut r = String::from_str("Parse error at line ");
                r.append(decimal_text(*line).as_str());
                if !exp.as_str().is_empty() {
                    r.append(" expected ‘");
                    r.append(exp.as_str());
                    r.append("’");
                }
                if !got.as_str().is_empty() {
                    r.append(", got ‘");
                    r.append(got.as_str());
                    r.append("’");
                }
                r
            },
            Error::Unexpected(line, msg) => {
                if *line > 0 {
                    let mut r = String::from_str("Unexpected error at line ");
                    r.append(decimal_text(*line).as_str());
                    r.append(": ");
                    r.append(msg.as_str());
                    r
                } else {
                    String::from_str("Unexpected error: ").concat(msg.as_str())
                }
            },
            Error::PluralForms(msg) => String::from_str("Error in plurals forms: ").concat(
                msg.as_str(),
            ),
        }
    }
}

} // verus!
