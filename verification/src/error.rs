//! Error kinds surfaced by the buffer and metadata layers.

use vstd::prelude::*;

verus! {

/// A recoverable error: allocation or buffer-write failure (`MemoryError`),
/// or a malformed / unsupported JSON schema (`ParseError`).
#[derive(Debug, Clone)]
pub enum ArrowError {
    MemoryError(String),
    ParseError(String),
}

impl ArrowError {
    /// The human-readable message carried by the error.
    pub fn message(&self) -> (r: &String)
        ensures
            r@ == self.spec_message(),
    {
        match self {
            ArrowError::MemoryError(s) => s,
            ArrowError::ParseError(s) => s,
        }
    }

    pub open spec fn spec_message(&self) -> Seq<char> {
        match self {
            ArrowError::MemoryError(s) => s@,
            ArrowError::ParseError(s) => s@,
        }
    }

    pub open spec fn is_memory_error(&self) -> bool {
        self is MemoryError
    }

    pub open spec fn is_parse_error(&self) -> bool {
        self is ParseError
    }
}

} // verus!
