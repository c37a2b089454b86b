//! Failures reported by the codec, the combinators and the effects.

use vstd::prelude::*;

verus! {

/// Why a decode, a combinator or an effect produced no result.
#[derive(Clone, Copy, Debug, PartialEq, Eq, Structural)]
pub enum WaveError {
    /// One of the four fixed chunk tags did not match.
    UnexpectedMagicNumber,
    /// The audio format is not linear PCM.
    UnsupportedFormat,
    /// The samples are not 16 bits wide.
    UnsupportedBitDepth,
    /// The channel count is neither one nor two.
    UnsupportedChannelCount,
    /// The block alignment or byte rate contradicts the other fields.
    MalformedFormatChunk,
    /// The stream ended before a field or a sample could be read.
    TruncatedStream,
    /// Two sample sequences that must have one length do not.
    LengthMismatch,
    /// Two waves that must share a sample rate do not.
    SampleRateMismatch,
    /// A sample offset lies past the end of the samples.
    OutOfRange,
}

} // verus!
