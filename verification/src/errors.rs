//! The two closed error enumerations: every failure is a terminal rejection
//! of malformed input, one enumeration per codec direction.

use vstd::prelude::*;

verus! {

/// Why encoding was rejected.
#[derive(Clone, Copy, Debug, PartialEq, Eq, Structural)]
pub enum EncodeError {
    /// A component count lies outside [1, 9].
    ComponentNumberOutbound,
    /// The pixel buffer length does not equal `width * height * 4`.
    PixelArrayMismatch,
}

/// Why decoding was rejected.
#[derive(Clone, Copy, Debug, PartialEq, Eq, Structural)]
pub enum DecodeError {
    /// The hash is shorter than the 6-character minimum.
    InvalidLength,
    /// The hash length disagrees with the component grid declared by its
    /// first character.
    LengthMismatch,
}

} // verus!
