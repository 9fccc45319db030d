//! Plain configuration and response shapes of the read API.  The HTTP
//! server itself is host plumbing; these are the values it is handed.

use vstd::prelude::*;

verus! {

/// Where the read API listens.
#[derive(Debug, PartialEq, Eq, Clone, Copy)]
pub struct ServerConf {
    pub port: u16,
}

/// What the health endpoint answers: the running version.
#[derive(Debug, PartialEq, Eq)]
pub struct HealthCheckResponse {
    pub version: String,
}

} // verus!
