//! The single error type of the parsing subsystem: one human-readable
//! message, surfaced unchanged to the caller of the parse entry point.

use vstd::prelude::*;

verus! {

/// A lexical or syntactic fault, carrying a display message.
#[derive(Debug, Clone)]
pub struct ParseError {
    pub message: String,
}

impl ParseError {
    /// A new error with the given message.
    pub fn new(msg: &str) -> (r: ParseError)
        ensures
            r.message@ == msg@,
    {
        ParseError { message: msg.to_owned() }
    }

    /// The message prefixed for display, as the error prints itself.
    pub fn display_message(&self) -> (r: String)
        ensures
            r@ == "ParseError: "@ + self.message@,
    {
        let mut r = String::new();
        r.append("ParseError: ");
        r.append(self.message.as_str());
        r
    }
}

} // verus!
