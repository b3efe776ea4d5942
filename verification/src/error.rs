//! What can go wrong in the library's own work.

use vstd::prelude::*;

verus! {

/// A failure that the caller reports and stops on.
#[derive(Clone, Copy, Debug, PartialEq, Eq, Structural)]
pub enum TriageError {
    /// The stored list of marked senders is not a JSON array of strings.
    ParseDBError,
    /// The list of marked senders could not be written as JSON.
    EncodeDBError,
    /// A message carries more than one sender header.
    MultipleHeaders,
    /// The bearer token cannot stand in a request header.
    InvalidToken,
}

impl TriageError {
    /// The failure in words, for the diagnostic that the caller prints.
    pub fn message(&self) -> (text: &'static str)
        ensures
            text@ == match self {
                TriageError::ParseDBError => "error parsing the DB file"@,
                TriageError::EncodeDBError => "error writing the DB file"@,
                TriageError::MultipleHeaders => "a message carries more than one sender header"@,
                TriageError::InvalidToken => "the token cannot stand in a request header"@,
            },
    {
        match self {
            TriageError::ParseDBError => "error parsing the DB file",
            TriageError::EncodeDBError => "error writing the DB file",
            TriageError::MultipleHeaders => "a message carries more than one sender header",
            TriageError::InvalidToken => "the token cannot stand in a request header",
        }
    }
}

} // verus!
