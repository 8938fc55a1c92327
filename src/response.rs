use vstd::prelude::*;

verus! {

/// The status payload of the service's fixed routes.
pub struct Response {
    pub message: String,
}

impl Response {
    /// The payload of the health check.
    pub fn health_status() -> (r: Response)
        ensures
            r.message@ == "Everything is working fine"@,
    {
        Response { message: "Everything is working fine".to_string() }
    }

    /// The payload for a route that does not exist.
    pub fn resource_not_found() -> (r: Response)
        ensures
            r.message@ == "Resource not found"@,
    {
        Response { message: "Resource not found".to_string() }
    }
}

} // verus!
