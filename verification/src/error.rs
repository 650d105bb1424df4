use vstd::prelude::*;

verus! {

/// Why a buffer could not be decoded.
#[derive(Clone, Copy, Debug, PartialEq, Eq, Structural)]
pub enum DecodeError {
    /// Fewer bytes remain than a field or a declared length asks for.
    TruncatedInput,
    /// An entry declares a size smaller than its own four-byte header.
    InvalidAceSize,
    /// Only the strict check reports this: the sizes that a list and its
    /// entries declare do not add up, or an entry's body is longer than what
    /// it holds.
    InconsistentLength,
}

} // verus!
