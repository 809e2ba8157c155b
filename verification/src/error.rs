//! The single failure kind this layer reports: an engine error carrying a
//! message. Absence of a key is never an error.

use vstd::prelude::*;
use vstd::string::StringExecFns;

verus! {

/// A failure reported by the engine, carrying its message verbatim.
#[derive(Debug)]
pub struct Error {
    message: String,
}

impl Error {
    /// The message, as characters.
    pub closed spec fn message_spec(self) -> Seq<char> {
        self.message@
    }

    /// Build an error from a drained engine message.
    pub(crate) fn from_text(text: &str) -> (r: Error)
        ensures
            r.message_spec() == text@,
    {
        Error { message: <String as StringExecFns>::from_str(text) }
    }

    /// Read the message.
    pub fn message(&self) -> (r: &str)
        ensures
            r@ == self.message_spec(),
    {
        self.message.as_str()
    }
}

} // verus!
