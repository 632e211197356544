//! Payloads for the fire-and-forget observability notifications: status
//! transitions, per-request notices and error notices. Delivery is a
//! collaborator's concern; failures there never affect request outcomes.

use vstd::prelude::*;

verus! {

/// A `running`/`stopped` status transition, with the bound host and port.
pub struct ProxyStatusPayload {
    pub status: String,
    pub host: String,
    pub port: u16,
}

/// A per-request notice, emitted before any processing of the request.
pub struct ProxyRequestPayload {
    pub method: String,
    pub model_id: String,
    pub path: String,
}

/// An error notice for the observer.
pub struct ProxyErrorPayload {
    pub title: String,
    pub message: String,
}

impl ProxyStatusPayload {
    /// A status payload carrying exactly the given transition and address.
    pub fn new(status: String, host: String, port: u16) -> (p: Self)
        ensures
            p.status@ == status@,
            p.host@ == host@,
            p.port == port,
    {
        ProxyStatusPayload { status, host, port }
    }
}

impl ProxyRequestPayload {
    /// A request notice carrying exactly the method, identifier and subpath.
    pub fn new(method: String, model_id: String, path: String) -> (p: Self)
        ensures
            p.method@ == method@,
            p.model_id@ == model_id@,
            p.path@ == path@,
    {
        ProxyRequestPayload { method, model_id, path }
    }
}

impl ProxyErrorPayload {
    /// An error notice carrying exactly the given title and message.
    pub fn new(title: String, message: String) -> (p: Self)
        ensures
            p.title@ == title@,
            p.message@ == message@,
    {
        ProxyErrorPayload { title, message }
    }
}

} // verus!
