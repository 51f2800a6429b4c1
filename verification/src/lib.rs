//! A process-supervisor control plane: a byte codec for supervisor commands
//! and responses, the process-lifecycle state machine, the log-rotation
//! engine with its per-path mutual-exclusion guard, and the small models
//! around them (worker pool, configuration normalization).

pub mod config;
pub mod controller;
pub mod process;
pub mod rotater;
pub mod run;
pub mod text;
