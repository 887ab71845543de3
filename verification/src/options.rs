//! The options that the `service` and `peer` attributes of a service trait take.
use vstd::prelude::*;

verus! {

/// Options of the `service` attribute; it takes none.
pub struct ServiceOptions {}

/// Options of the `peer` attribute: the names of the request, response and error types
/// and of the service, where they are not the default ones.
pub struct PeerOptions {
    pub request: Option<String>,
    pub response: Option<String>,
    pub error: Option<String>,
    pub service: Option<String>,
}

impl Default for ServiceOptions {
    fn default() -> Self {
        ServiceOptions {}
    }
}

impl Default for PeerOptions {
    fn default() -> (r: Self)
        ensures
            r.request is None,
            r.response is None,
            r.error is None,
            r.service is None,
    {
        PeerOptions { request: None, response: None, error: None, service: None }
    }
}

} // verus!
