//! The control surface: wire codec for commands and responses, the
//! process-lifecycle controller, and the request dispatch around them.

pub mod client;
pub mod command;
pub mod controller;
pub mod error;
pub mod server;
