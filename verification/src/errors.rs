//! Error surfaces of the proxy: lifecycle errors returned to the caller of
//! `start`/`stop`, and per-request failures mapped to HTTP status codes.

use vstd::prelude::*;

verus! {

/// A lifecycle operation failure, returned synchronously by `start`/`stop`.
#[derive(Debug)]
pub enum LifecycleError {
    /// `start` was called while a listener handle is already installed.
    AlreadyRunning,
    /// `stop` was called while no listener handle is installed.
    NotRunning,
    /// Binding the listener failed; carries the address and the cause.
    BindError { address: String, cause: String },
}

/// A per-request failure, mapped to an HTTP status code for the requester.
#[derive(PartialEq, Eq, Structural, Clone, Copy, Debug)]
pub enum RequestFailure {
    /// The configuration store could not be loaded or parsed.
    ConfigUnreadable,
    /// No configured record carries the requested identifier.
    IdentifierNotFound,
    /// The matched record has no base URL; no network call is attempted.
    MissingBaseUrl,
    /// The inbound request body could not be read.
    BodyUnreadable,
    /// The upstream request failed at the transport level.
    UpstreamFailure,
    /// The outbound response could not be assembled.
    ResponseAssembly,
}

/// The HTTP status code that a per-request failure is reported as.
pub open spec fn spec_status_code(f: RequestFailure) -> u16 {
    match f {
        RequestFailure::ConfigUnreadable => 500,
        RequestFailure::IdentifierNotFound => 404,
        RequestFailure::MissingBaseUrl => 400,
        RequestFailure::BodyUnreadable => 400,
        RequestFailure::UpstreamFailure => 502,
        RequestFailure::ResponseAssembly => 500,
    }
}

impl RequestFailure {
    /// The HTTP status code this failure is reported as.
    pub fn status_code(&self) -> (code: u16)
        ensures
            code == spec_status_code(*self),
    {
        match self {
            RequestFailure::ConfigUnreadable => 500,
            RequestFailure::IdentifierNotFound => 404,
            RequestFailure::MissingBaseUrl => 400,
            RequestFailure::BodyUnreadable => 400,
            RequestFailure::UpstreamFailure => 502,
            RequestFailure::ResponseAssembly => 500,
        }
    }
}

} // verus!
