//! Why a message could not be decoded.
use vstd::prelude::*;

verus! {

#[derive(PartialEq, Eq, Structural, Clone, Copy, Debug)]
pub enum DecodeError {
    /// Too few bytes for a fixed-size field or record header.
    Truncated,
    /// A declared length disagrees with the bytes actually present.
    LengthMismatch,
    /// An optional parameter other than Capabilities.
    UnsupportedOption,
}

} // verus!
