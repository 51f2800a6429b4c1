//! The dispatcher's runtime pieces, modeled at the decision level.

pub mod error;
pub mod threads;
