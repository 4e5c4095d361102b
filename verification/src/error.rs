//! The ways in which verification can fail.

use vstd::prelude::*;

verus! {

/// Why a step of the verification failed. Each kind carries a text for the
/// reader of a log.
#[derive(Debug, PartialEq, Eq)]
pub enum Error {
    /// Bytes that do not encode a field element or a curve point.
    DecodeError(String),
    /// A named identity that did not hold.
    AssertionFailure(String),
    /// The proof stream ended early, or a point that cannot be absorbed.
    TranscriptError(String),
}

impl Error {
    /// The text that the error carries.
    pub open spec fn text(self) -> Seq<char> {
        match self {
            Error::DecodeError(m) => m@,
            Error::AssertionFailure(m) => m@,
            Error::TranscriptError(m) => m@,
        }
    }

    /// Whether this is a decode error with the given text.
    pub open spec fn is_decode_error(self, text: Seq<char>) -> bool {
        self is DecodeError && self.text() == text
    }

    /// Whether this is an assertion failure with the given text.
    pub open spec fn is_assertion_failure(self, text: Seq<char>) -> bool {
        self is AssertionFailure && self.text() == text
    }

    /// Whether this is a transcript error with the given text.
    pub open spec fn is_transcript_error(self, text: Seq<char>) -> bool {
        self is TranscriptError && self.text() == text
    }

    /// The text that the error carries.
    pub fn message(&self) -> (r: String)
        ensures
            r@ == self.text(),
    {
        match self {
            Error::DecodeError(m) => m.clone(),
            Error::AssertionFailure(m) => m.clone(),
            Error::TranscriptError(m) => m.clone(),
        }
    }

    /// A decode error with the given text.
    pub fn decode(text: &str) -> (r: Error)
        ensures
            r.is_decode_error(text@),
    {
        Error::DecodeError(text.to_owned())
    }

    /// An assertion failure with the given text.
    pub fn assertion(text: &str) -> (r: Error)
        ensures
            r.is_assertion_failure(text@),
    {
        Error::AssertionFailure(text.to_owned())
    }

    /// A transcript error with the given text.
    pub fn transcript(text: &str) -> (r: Error)
        ensures
            r.is_transcript_error(text@),
    {
        Error::TranscriptError(text.to_owned())
    }
}

} // verus!
