use vstd::prelude::*;

verus! {

/// Failures of the rotation engine.
#[derive(Debug, Clone, PartialEq, Eq)]
pub enum RotaterErr {
    /// The engine could not be set up.
    CreateRotaterFailed(String),
    /// A file name does not carry a readable rotation timestamp.
    PathInvalid { invalid_type: String, e: String },
}

} // verus!
