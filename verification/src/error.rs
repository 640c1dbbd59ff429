//! The ways in which a request can fail.
use vstd::prelude::*;

verus! {

/// Why a request was turned down. Every error ends the request: no partial page
/// goes out with one.
#[derive(Clone, Copy, Debug, PartialEq, Eq, Structural)]
pub enum QueryError {
    /// The filter names no calendar period, or the limit is not positive.
    Validation,
    /// A cursor token could not be read.
    InvalidCursor,
    /// A lookup of a single record found nothing.
    NotFound,
    /// The record store failed or timed out.
    Storage,
    /// A value is outside what a key or a record field can represent.
    Encoding,
}

impl QueryError {
    /// The name of the error, for messages.
    pub fn name(&self) -> (s: &'static str)
        ensures
            s@ == match *self {
                QueryError::Validation => "ValidationError"@,
                QueryError::InvalidCursor => "InvalidCursorError"@,
                QueryError::NotFound => "NotFoundError"@,
                QueryError::Storage => "StorageError"@,
                QueryError::Encoding => "EncodingError"@,
            },
    {
        match self {
            QueryError::Validation => "ValidationError",
            QueryError::InvalidCursor => "InvalidCursorError",
            QueryError::NotFound => "NotFoundError",
            QueryError::Storage => "StorageError",
            QueryError::Encoding => "EncodingError",
        }
    }
}

} // verus!
