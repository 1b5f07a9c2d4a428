//! The failures that the library reports.
use vstd::prelude::*;

verus! {

/// Why an operation could not give a result.
#[derive(Clone, Copy, Debug, PartialEq, Eq, Structural)]
pub enum VrfError {
    /// A fixed-width encoding had the wrong length or an out-of-range value.
    MalformedEncoding,
    /// An input point does not lie on the curve.
    InvalidPoint,
    /// Every nonce drawn within the retry bound was zero.
    NonceRangeExhausted,
    /// No candidate within the retry bound lay on the curve.
    HashToCurveExhausted,
}

} // verus!
