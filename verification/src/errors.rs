//! Error taxonomy of the fetch pipeline.

use vstd::prelude::*;

verus! {

/// What went wrong with a fetch: a transport failure or non-2xx status, a
/// response body that does not match the expected schema, or a failure to
/// create or write a file.
#[derive(Clone, Copy, Debug, PartialEq, Eq, Structural)]
pub enum FetchError {
    NetworkError,
    ParseError,
    FilesystemError,
}

impl FetchError {
    /// A short human-readable label for reports.
    pub fn describe(&self) -> (r: &'static str)
        ensures
            (*self is NetworkError) ==> r@ == "network error"@,
            (*self is ParseError) ==> r@ == "parse error"@,
            (*self is FilesystemError) ==> r@ == "filesystem error"@,
    {
        match self {
            FetchError::NetworkError => "network error",
            FetchError::ParseError => "parse error",
            FetchError::FilesystemError => "filesystem error",
        }
    }
}

/// An HTTP status counts as success exactly when it is in the 2xx range.
pub open spec fn spec_status_ok(status: u16) -> bool {
    200 <= status < 300
}

/// Decides whether an HTTP status is a success status.
pub fn status_ok(status: u16) -> (r: bool)
    ensures
        r == spec_status_ok(status),
{
    200 <= status && status < 300
}

} // verus!
