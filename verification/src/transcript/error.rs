//! Why a parse fails.
use vstd::prelude::*;

verus! {

/// Why no transcript could be made of a document.
#[derive(Debug, Clone, Copy, PartialEq, Eq, Structural)]
pub enum TranscriptParseError {
    NoTranscriptLines,
}

impl TranscriptParseError {
    /// The error in words.
    pub fn message(&self) -> (r: &'static str)
        ensures
            r@ == "No transcript lines could be detected."@,
    {
        "No transcript lines could be detected."
    }
}

} // verus!
