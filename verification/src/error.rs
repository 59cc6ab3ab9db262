//! The ways in which a conversion can fail.

use vstd::prelude::*;

verus! {

/// Why a call could not be converted. Either error leaves the call as it was:
/// nothing is built of it.
#[derive(Clone, Copy, Debug, PartialEq, Eq, Structural)]
pub enum FormatError {
    /// The conversion specifier whose `%` stands at byte `offset` of the format
    /// string is unrecognized or incomplete, or it consumes an argument that the
    /// call does not have.
    MalformedSpecifier { offset: usize },
    /// The argument at `index` cannot be read as text. Index 0 is the format
    /// string itself: it is missing, no literal, or no valid UTF-8. Any other
    /// index is that of a literal that is cast to text and cannot be decoded.
    InvalidTextArgument { index: usize },
}

} // verus!
