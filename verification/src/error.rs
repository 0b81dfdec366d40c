//! Errors reported by the number recognition engine.

use vstd::prelude::*;

verus! {

/// A failure of one of the public operations. Each failure names the input
/// that caused it, so callers can report a useful diagnostic.
#[derive(Clone, PartialEq, Eq, Debug)]
pub enum Error {
    /// The requested language identifier is not in the registry.
    UnsupportedLanguage(String),
    /// The input could not be composed into a single coherent number.
    InvalidNumberLiteral(String),
}

/// One step of composition over the digit buffer went wrong.
///
/// These are internal to the composition parser; the public operations
/// translate any of them into `Error::InvalidNumberLiteral`.
#[derive(Clone, Copy, PartialEq, Eq, Structural, Debug)]
pub enum ComposeError {
    /// The word's digits would overwrite digits already placed.
    Overlap,
    /// The word is not a number word at all.
    NotANumber,
    /// The phrase needs more words to be complete (a trailing connector).
    Incomplete,
    /// The number was already closed by an ordinal word.
    Frozen,
}

impl Error {
    /// A plain-text rendering of the error, naming the offending input.
    pub fn message(&self) -> (r: String)
        ensures
            (self matches Error::UnsupportedLanguage(l) ==> r@ == "unsupported language "@
                + l@),
            (self matches Error::InvalidNumberLiteral(t) ==> r@
                == "invalid literal for text2num: '"@ + t@ + "'"@),
    {
        match self {
            Error::UnsupportedLanguage(l) => {
                let head = String::from_str("unsupported language ");
                head.concat(l.as_str())
            },
            Error::InvalidNumberLiteral(t) => {
                let head = String::from_str("invalid literal for text2num: '");
                head.concat(t.as_str()).concat("'")
            },
        }
    }
}

} // verus!
