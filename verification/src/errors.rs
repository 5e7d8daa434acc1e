//! The ways in which building a codec, encoding or decoding can fail.

use vstd::prelude::*;

verus! {

/// Why a codec could not be built, or a value not encoded or decoded.
#[derive(Clone, Copy, Debug, PartialEq, Eq, Structural)]
pub enum CodecError {
    /// A codec was asked for with a capacity of zero.
    InvalidConfig,
    /// The number needs more pairs or symbols than the codec has.
    ValueTooLarge,
    /// More digit pairs were given than the codec has.
    TooManyPairs,
    /// More symbols were given than the codec has.
    InputTooLong,
    /// A digit of a pair is not a decimal digit.
    InvalidDigit,
    /// A symbol does not belong to the alphabet.
    InvalidSymbol,
}

} // verus!
