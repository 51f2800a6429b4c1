use vstd::prelude::*;

verus! {

/// Why a configuration was rejected at startup.
#[derive(Debug, Clone, PartialEq, Eq)]
pub enum Error {
    /// The configuration file could not be read.
    ReadFileError(String),
    /// The configuration's contents fail validation.
    FormatCheckError(String),
}

} // verus!
