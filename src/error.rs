use vstd::prelude::*;

verus! {

/// The recoverable failures of the codec.
#[derive(Debug, Clone, Copy, PartialEq, Eq, Structural)]
pub enum CodecError {
    /// A character outside `A`, `G`, `C`, `T` was met while encoding.
    InvalidSymbol,
    /// A position at or past the sequence length was asked for.
    IndexOutOfRange,
    /// Two sequences of different declared lengths were combined.
    LengthMismatch,
}

} // verus!
