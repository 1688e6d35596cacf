//! What can go wrong around the mailbox, by the place where it goes wrong.

use vstd::prelude::*;

verus! {

/// The mailbox document could not be read.
#[derive(Debug, Clone, PartialEq, Eq)]
pub enum FetchError {
    /// The request could not be made, or the network or the document store
    /// refused it.
    Transport(String),
    /// The content of the document is not base64 text.
    Encoding,
    /// The decoded content is not an array of entries.
    Parse(String),
}

/// The document store or the blob store did not take a write.
#[derive(Debug, Clone, PartialEq, Eq)]
pub enum WriteError {
    /// The revision token presented with the write is stale: the store
    /// holds a later revision and is left as it is.
    Conflict,
    /// The request could not be made, or the network or the store refused
    /// it for another reason.
    Transport(String),
}

/// The merged document could not be encoded as text.
#[derive(Debug, Clone, PartialEq, Eq)]
pub struct SerializationError {
    pub message: String,
}

/// No handler is registered for the body of a request.
#[derive(Debug, Clone, PartialEq, Eq)]
pub struct RoutingError {
    /// The body for which a handler was looked up.
    pub key: String,
}

} // verus!
