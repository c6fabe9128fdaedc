use vstd::prelude::*;

verus! {

/// Why analysis of a podium image failed. No silent fallback values exist:
/// every query either yields a definite answer or fails with one of these.
#[derive(Clone, Copy, PartialEq, Eq, Structural, Debug)]
pub enum AnalysisError {
    /// A requested sub-region or pixel lookup exceeds its parent's extent.
    /// Always a caller or configuration bug; propagated immediately.
    OutOfBounds,
    /// None of the known placard layouts matched. Fatal for the image being
    /// processed; a batch caller may skip the image, the library never guesses.
    UndeterminedPlayerCount,
    /// The byte stream did not decode as an 8-bit RGB PNG.
    DecodeFailed,
}

} // verus!
