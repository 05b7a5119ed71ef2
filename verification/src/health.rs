//! The health answer of the enclosing service.

use vstd::prelude::*;

verus! {

/// What the health endpoint reports.
#[derive(Debug)]
pub struct HealthResponse {
    pub status: String,
    pub version: String,
}

/// A healthy answer carrying the build's version.
pub fn health_response(version: String) -> (r: HealthResponse)
    ensures
        r.status@ == "ok"@,
        r.version == version,
{
    HealthResponse { status: String::from_str("ok"), version }
}

} // verus!
