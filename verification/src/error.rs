//! The library's error type.
use vstd::prelude::*;

verus! {

/// What can go wrong in a command.
#[derive(Debug)]
pub enum GwsError {
    /// The request is malformed or names something unknown.
    Validation(String),
    /// Authentication failed.
    Auth(String),
    /// An API call answered with an error.
    Api { code: u16, message: String, reason: String, enable_url: Option<String> },
    /// Any other failure.
    Other(String),
}

} // verus!
