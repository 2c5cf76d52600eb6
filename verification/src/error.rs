//! Domain errors of the point-of-sale system.
use vstd::prelude::*;

use crate::text::concat;

verus! {

/// Error variants covering persistence, thermal printing, CSV loading and
/// validation; outside errors are carried as their message text.
#[derive(Clone, Debug)]
pub enum PosError {
    Database(String),
    Io(String),
    Csv(String),
    Validation(String),
    NotFound(String),
    Printer(String),
    Other(String),
}

/// The message text of an error.
pub open spec fn error_text(e: PosError) -> Seq<char> {
    match e {
        PosError::Database(m) => "Database error: "@ + m@,
        PosError::Io(m) => "I/O error: "@ + m@,
        PosError::Csv(m) => "CSV parsing error: "@ + m@,
        PosError::Validation(m) => "Validation error: "@ + m@,
        PosError::NotFound(m) => "Resource not found: "@ + m@,
        PosError::Printer(m) => "Thermal printer error: "@ + m@,
        PosError::Other(m) => "Application error: "@ + m@,
    }
}

#[verifier::external_type_specification]
#[verifier::external_body]
pub struct ExIoError(std::io::Error);

/// Calls `Display` on a `std::io::Error`. Nothing is stated of the text: for
/// an operating-system error it is the platform's message for the error code,
/// which depends on the machine, so it cannot be named either.
#[verifier::external_body]
fn io_error_text(e: &std::io::Error) -> String {
    e.to_string()
}

impl PosError {
    pub fn validation(msg: &str) -> (e: PosError)
        ensures
            e matches PosError::Validation(m) && m@ == msg@,
    {
        PosError::Validation(String::from_str(msg))
    }

    pub fn not_found(msg: &str) -> (e: PosError)
        ensures
            e matches PosError::NotFound(m) && m@ == msg@,
    {
        PosError::NotFound(String::from_str(msg))
    }

    pub fn printer(msg: &str) -> (e: PosError)
        ensures
            e matches PosError::Printer(m) && m@ == msg@,
    {
        PosError::Printer(String::from_str(msg))
    }

    pub fn other(msg: &str) -> (e: PosError)
        ensures
            e matches PosError::Other(m) && m@ == msg@,
    {
        PosError::Other(String::from_str(msg))
    }

    /// The error of a failed I/O operation, carrying its message (the error's
    /// `Display` text, of which nothing is stated; see `io_error_text`).
    pub fn from_io(err: &std::io::Error) -> (e: PosError)
        ensures
            e is Io,
    {
        PosError::Io(io_error_text(err))
    }

    /// The text shown for the error.
    pub fn message(&self) -> (r: String)
        ensures
            r@ == error_text(*self),
    {
        match self {
            PosError::Database(m) => concat("Database error: ", m.as_str()),
            PosError::Io(m) => concat("I/O error: ", m.as_str()),
            PosError::Csv(m) => concat("CSV parsing error: ", m.as_str()),
            PosError::Validation(m) => concat("Validation error: ", m.as_str()),
            PosError::NotFound(m) => concat("Resource not found: ", m.as_str()),
            PosError::Printer(m) => concat("Thermal printer error: ", m.as_str()),
            PosError::Other(m) => concat("Application error: ", m.as_str()),
        }
    }
}

} // verus!
