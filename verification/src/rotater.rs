//! The log-rotation engine: timestamped backup names, the per-path
//! mutual-exclusion guard that coalesces concurrent rotation requests, and
//! the retention policy with its selection algorithm.

pub mod error;
pub mod rotater;
