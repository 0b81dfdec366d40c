//! Conversion of natural-language number expressions into digits.
//!
//! The crate recognises number phrases ("twenty-three thousand four hundred")
//! in free-form text, composes their numeric value under a per-language
//! grammar, and rewrites the text with the recognised phrases in digit form,
//! leaving everything else untouched.
//!
//! Scope: the registry holds the English grammar; every other language
//! identifier is reported as unsupported, never approximated. Case folding
//! and token boundaries are ASCII; decimal-fraction phrases ("point") are
//! not part of the grammar, so values are integers throughout.

pub mod api;
pub mod digits;
pub mod english;
pub mod error;
pub mod laws;
pub mod replace;
pub mod scan;
pub mod strutil;

pub use api::{InputToken, Language, NumOccurence, find_numbers, get_interpreter, text_to_num};
pub use error::Error;
pub use replace::alpha2digit;
