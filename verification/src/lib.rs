//! A small verified HTTP/1.1 message engine: it parses raw request text
//! into a structured request, resolves the request against a tree of
//! registered routes, and serializes a structured response back into
//! wire bytes.  The socket handling around it is left to the embedding
//! application.
use vstd::prelude::*;

pub mod package;
pub mod request;
pub mod response;
pub mod router;
pub mod strmap;
pub mod strutil;

verus! {

/// Every error the library can report.
#[derive(Debug)]
pub enum Error {
    /// An error of the surrounding server loop.
    ServerError(ServerError),
    /// An error raised while routing a request.
    RouterError(crate::router::RouterError),
    /// An error raised while parsing a request.
    RequestError(crate::request::RequestError),
}

/// Errors of the surrounding server loop.
#[derive(Debug)]
pub enum ServerError {
    /// A connection was handled while no router was attached.
    NoRouterAttached,
}

/// A byte-level wire representation, used to send responses.
pub trait BinaryRepresentation {
    /// Returns the bytes of the wire representation.
    fn to_binary(&self) -> Vec<u8>;
}

} // verus!
