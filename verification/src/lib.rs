//! Typed client core for the Docker Engine volume endpoints.
//!
//! The library owns everything that can be checked: the JSON payload model,
//! the options builder, the typed request bodies and response decoders, and
//! the mapping from HTTP status codes to the error taxonomy. The transport
//! (sockets, TLS, the event loop) is a collaborator that callers supply; it
//! hands this library raw status codes and body text and gets typed values
//! back.

pub mod error;
pub mod json;
pub mod opts;
pub mod timestamp;
pub mod volume;
