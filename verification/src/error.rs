//! The ways in which the engine refuses or fails.

use vstd::prelude::*;

verus! {

/// Why an operation of the engine did not succeed.
#[derive(Clone, Copy, Debug, PartialEq, Eq, Structural)]
pub enum EngineError {
    /// The configuration is incomplete or holds a token length that is too
    /// short. Raised at construction only.
    ConfigurationError,
    /// A value outside the alphabet was to be written as a symbol. It tells
    /// of a fault in the program, not in the input.
    EncodingInvariantViolation,
    /// The durable table could not be reached or failed. The caller may try
    /// again; the engine does not.
    StorageFault,
    /// No record is stored under the token that was read.
    RecordNotFound,
    /// The input was refused before the cache or the table was touched: an
    /// empty URI, or a token with a path separator in it.
    MalformedInput,
}

} // verus!
