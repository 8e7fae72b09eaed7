//! The entry-point trait for types built by parsing a source text.

use vstd::prelude::*;

use crate::error::ParseError;

verus! {

/// A type that can be produced by parsing an owned source text.
pub trait Parse: Sized {
    /// Parses the given source, yielding the value or the first fault.
    fn parse(source: &str) -> Result<Self, ParseError>
        requires
            source@.len() <= crate::tokenizer::MAX_SOURCE_LEN,
    ;
}

} // verus!
