//! The error taxonomy every endpoint call reports through.

use vstd::prelude::*;

verus! {

/// Why an endpoint call failed.
///
/// No failure is retried here: every one is surfaced to the caller, who
/// alone knows whether the operation is safe to repeat.
#[derive(Debug, PartialEq)]
pub enum Error {
    /// The connection itself failed before a status line arrived.
    Transport(String),
    /// The daemon answered with a non-2xx status; the message is passed
    /// through unmodified.
    Api { status: u16, message: String },
    /// The response body did not match the documented schema.
    Decode,
    /// The request body could not be encoded; unreachable through the
    /// typed builders.
    Serialization,
}

impl Error {
    /// The HTTP status this error carries, if it is an API error.
    pub fn api_status(&self) -> (r: Option<u16>)
        ensures
            r == (match *self {
                Error::Api { status, .. } => Some(status),
                _ => None::<u16>,
            }),
    {
        match self {
            Error::Api { status, .. } => Some(*status),
            _ => None,
        }
    }
}

} // verus!
