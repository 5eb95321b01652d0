//! The ways an encode can fail.

use vstd::prelude::*;

verus! {

/// Why an encode stopped. Every failure is final: nothing is retried and no
/// partial image is produced.
#[derive(Debug, Clone, Copy, PartialEq, Eq, Structural)]
pub enum EncodeError {
    /// The command line did not hold exactly five arguments.
    ArgumentCount,
    /// Width, height or color type is not a number the encoder accepts.
    ArgumentParse,
    /// A sample token is not a binary number that fits in one byte.
    TokenFormat,
    /// The number of samples does not fit the declared image shape.
    ShapeMismatch,
    /// The compressor failed.
    Compression,
    /// A chunk's data is longer than its 32-bit length field can say.
    ChunkTooLarge,
}

/// `r` is the failure `e`.
pub open spec fn failed_with<T>(r: Result<T, EncodeError>, e: EncodeError) -> bool {
    match r {
        Ok(_) => false,
        Err(found) => found == e,
    }
}

} // verus!
