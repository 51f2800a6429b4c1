//! Daemon configuration: the value types the supervisor consumes, their
//! defaults, and path normalization. Reading and parsing the configuration
//! file happen outside the library; the values arrive here already typed.

pub mod config;
pub mod error;
