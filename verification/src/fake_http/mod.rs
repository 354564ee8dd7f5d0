//! Requests that arrive over a channel instead of a socket, and the responses
//! written back to them.

pub mod body;
pub mod bytes;
pub mod cache_control;
pub mod encoding;
pub mod error;
pub mod header_map;
pub mod headers;
pub mod request;
pub mod response;
pub mod writer;
