//! API request and response bodies.

use vstd::prelude::*;

verus! {

/// The body of every error response.
#[derive(Debug, Clone)]
pub struct ErrorResponse {
    /// Human-readable message.
    pub error: String,
}

impl ErrorResponse {
    /// An error body carrying `msg`.
    pub fn new(msg: String) -> (r: ErrorResponse)
        ensures
            r.error@ == msg@,
    {
        ErrorResponse { error: msg }
    }
}

/// The health-check response.
#[derive(Debug, Clone)]
pub struct HealthResponse {
    /// Service name.
    pub service: String,
    /// Version.
    pub version: String,
    /// Workspace directory.
    pub workspace: String,
}

impl HealthResponse {
    /// The health report of the storyor service.
    pub fn for_service(version: String, workspace: String) -> (r: HealthResponse)
        ensures
            r.service@ == "storyor"@,
            r.version@ == version@,
            r.workspace@ == workspace@,
    {
        HealthResponse { service: "storyor".to_owned(), version, workspace }
    }
}

} // verus!
