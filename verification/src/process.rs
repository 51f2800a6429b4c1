//! The transport-generic client: one request, one response, over any
//! duplex byte stream.

pub mod client;
