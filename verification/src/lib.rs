//! A JSON-RPC 2.0 runtime: the decisions of a multiplexing client and of a
//! dispatching server, stated over plain values and verified.
//!
//! The runtime does no input or output. A client hands it the frames that
//! came and gets back what to do on the channels of its callers; a server
//! hands it the requests that came and gets back which handler to invoke and
//! the frames that answer. Payloads are JSON text throughout.
//!
//! - `v2` holds the wire types and the frames built from them.
//! - `client` holds the pool of request ids, the registry of waits, and the
//!   multiplexer that ties them to the frames of the server.
//! - `server` holds the registry of methods, the routing of requests, and
//!   the helpers by which handlers answer.
//! - `json` is the boundary to the JSON codec, `text` writes numerals and
//!   joins, and `error` holds the errors.

pub mod client;
pub mod error;
pub mod json;
pub mod server;
pub mod text;
pub mod v2;
