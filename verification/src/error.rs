//! The errors of CalDAV and CardDAV operations.
use vstd::prelude::*;

verus! {

#[verifier::external_type_specification]
#[verifier::external_body]
pub struct ExHttpError(reqwest::Error);

/// What can go wrong in a CalDAV or CardDAV operation.
pub enum CaldavError {
    /// The HTTP exchange itself failed.
    Http(reqwest::Error),
    /// The server answered with a status of 400 or more.
    Status { status: u16, body: String },
    /// A response could not be read.
    Parse(String),
    /// An argument was not acceptable; the text says which.
    InvalidArg(String),
}

impl CaldavError {
    /// The text of an `InvalidArg` error, where it is one.
    pub open spec fn invalid_arg_text(self) -> Option<Seq<char>> {
        match self {
            CaldavError::InvalidArg(s) => Some(s@),
            _ => None,
        }
    }
}

} // verus!
