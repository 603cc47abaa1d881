//! Request-scoped error taxonomy of the gateway.
//!
//! Every fallible step of the pipeline surfaces one of these kinds; all are
//! answered with a client-facing status code and none terminates the process.

use vstd::prelude::*;

verus! {

/// What went wrong while routing one request.
#[derive(Debug)]
pub enum GatewayError {
    /// The request path holds fewer than two non-empty segments, so no
    /// routing key can be derived. Carries the observed segments.
    ClientRequestMalformed { segments: Vec<Vec<u8>> },
    /// The route store could not be reached or the lookup itself failed.
    RouteLookupFailed,
    /// The route store holds no entry for the resolved prefix.
    RouteNotFound,
    /// The stored route entry has no usable `target` field: the field is
    /// absent, not a string, or empty.
    UpstreamTargetMalformed,
    /// A response reached end-of-stream without the forwarded-path header
    /// that the request rewriter is guaranteed to set.
    ForwardedPathMissing,
}

impl GatewayError {
    /// The status code a client receives for this error.
    pub fn http_status(&self) -> (code: u16)
        ensures
            code == 400u16,
    {
        match self {
            GatewayError::ClientRequestMalformed { .. } => 400,
            GatewayError::RouteLookupFailed => 400,
            GatewayError::RouteNotFound => 400,
            GatewayError::UpstreamTargetMalformed => 400,
            GatewayError::ForwardedPathMissing => 400,
        }
    }
}

} // verus!
