//! The greeting that tells a client the backend is up.

use vstd::prelude::*;

verus! {

/// The greeting: a status, the backend's version and a message.
pub struct HelloResponse {
    pub status: &'static str,
    pub version: &'static str,
    pub message: &'static str,
}

impl HelloResponse {
    /// The greeting of a backend at `version`.
    pub fn new(version: &'static str) -> (r: HelloResponse)
        ensures
            r.status@ == "ok"@,
            r.version@ == version@,
            r.message@ == "Hello from Financiar backend!"@,
    {
        HelloResponse { status: "ok", version, message: "Hello from Financiar backend!" }
    }
}

} // verus!
