use vstd::prelude::*;

verus! {

/// The body of the service's health check.
#[derive(Debug, Clone)]
pub struct HealthResponse {
    pub status: String,
    pub version: String,
}

impl HealthResponse {
    /// The answer of a running service of the given version.
    pub fn healthy(version: String) -> (r: Self)
        ensures
            r.status@ == "healthy"@,
            r.version == version,
    {
        proof { reveal_strlit("healthy"); }
        HealthResponse { status: String::from_str("healthy"), version }
    }
}

} // verus!
