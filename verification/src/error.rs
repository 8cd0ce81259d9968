//! Error kinds surfaced by the client.
//!
//! Every per-request failure resolves that request's completion sink with one
//! of these kinds; a single request's failure never stalls the agent loop or
//! any other in-flight request.

use vstd::prelude::*;

verus! {

/// The kinds of failure a request, or client construction, can report.
#[derive(Clone, Copy, Debug, PartialEq, Eq)]
pub enum Error {
    /// The background execution engine could not allocate its event-loop
    /// resources; surfaced once from client construction, never mid-flight.
    Init,
    /// A malformed URI, header or body was detected before submission.
    InvalidRequest,
    /// The native transport reported a failure for an in-flight request.
    Transport,
    /// A deadline expired while connecting or transferring.
    Timeout,
    /// The redirect policy's limit was exceeded.
    TooManyRedirects,
    /// The caller dropped the request's future before settlement.
    Cancelled,
}

impl Error {
    /// What `description` returns for each kind.
    pub open spec fn description_spec(self) -> Seq<char> {
        match self {
            Error::Init => "failed to start the background execution engine"@,
            Error::InvalidRequest => "invalid request"@,
            Error::Transport => "transport failure"@,
            Error::Timeout => "request timed out"@,
            Error::TooManyRedirects => "too many redirects"@,
            Error::Cancelled => "request was cancelled"@,
        }
    }

    /// A short description of the error kind.
    pub fn description(&self) -> (r: &'static str)
        ensures
            r@ == self.description_spec(),
    {
        match self {
            Error::Init => "failed to start the background execution engine",
            Error::InvalidRequest => "invalid request",
            Error::Transport => "transport failure",
            Error::Timeout => "request timed out",
            Error::TooManyRedirects => "too many redirects",
            Error::Cancelled => "request was cancelled",
        }
    }
}

} // verus!
