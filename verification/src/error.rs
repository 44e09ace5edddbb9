//! The error values the server hands around: a category and a message.
use vstd::prelude::*;
use vstd::string::*;

verus! {

/// What went wrong, in the three categories the server tells apart.
#[derive(Debug, Clone, PartialEq, Eq, Structural)]
pub enum ErrorCategory {
    NotFound,
    InvalidInput,
    Other,
}

/// An error with its category and a human-readable message.
#[derive(Debug, Clone)]
pub struct ServerError {
    pub kind: ErrorCategory,
    pub message: String,
}

impl ServerError {
    /// A resource could not be found.
    pub fn file_not_found(message: &str) -> (r: ServerError)
        ensures
            r.kind == ErrorCategory::NotFound,
            r.message@ == message@,
    {
        ServerError { kind: ErrorCategory::NotFound, message: message.to_owned() }
    }

    /// A resource exists but could not be read.
    pub fn failed_to_read_file(message: &str) -> (r: ServerError)
        ensures
            r.kind == ErrorCategory::InvalidInput,
            r.message@ == message@,
    {
        ServerError { kind: ErrorCategory::InvalidInput, message: message.to_owned() }
    }

    /// Any other failure.
    pub fn error(message: &str) -> (r: ServerError)
        ensures
            r.kind == ErrorCategory::Other,
            r.message@ == message@,
    {
        ServerError { kind: ErrorCategory::Other, message: message.to_owned() }
    }
}

} // verus!
