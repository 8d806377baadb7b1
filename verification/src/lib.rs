//! A dispatch layer for HTTP-style services: a table from (method, path) to
//! handlers over JSON values, and the adaptor that turns what the transport
//! extracted from a request into a handler call and the handler's value
//! into the response.
//!
//! The transport itself (sockets, pattern matching of paths, status codes)
//! is not part of this crate. It hands over plain values: the method and
//! the route it resolved, the path and query parameters as string pairs,
//! and the parsed body if there is one.
use vstd::prelude::*;

pub mod adaptor;
pub mod json;
pub mod method;
pub mod registry;
pub mod response;

pub use crate::adaptor::{dispatch, respond, Outcome};
pub use crate::json::JsonValue;
pub use crate::method::Method;
pub use crate::registry::{Binding, RouteRegistration, RouteRegistry};
pub use crate::response::{not_found, ApiResponse};

verus! {

/// The service object. It owns no state of its own: the routes live in a
/// `RouteRegistry` that is built once at startup.
pub struct Server;

impl Server {
    /// Creates the service object.
    pub fn new() -> (server: Self)
        ensures
            server == Server,
    {
        Server
    }
}

} // verus!
