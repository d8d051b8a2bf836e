//! The JSON-RPC 2.0 wire types and the frames built from them.

pub mod envelope;
pub mod error;
pub mod params;
pub mod request;
pub mod response;
