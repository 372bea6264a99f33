//! Errors of the REST clients.
use vstd::prelude::*;

verus! {

/// What a call to a remote service can fail with.
#[derive(Debug)]
pub enum Error {
    /// Any other failure, with its message.
    Any(String),
    /// The request could not be sent or its answer not read.
    HttpRequestError(String),
    /// The service asked to be left alone until this time, in seconds since
    /// the Unix epoch.
    RateLimited(i64),
}

} // verus!
