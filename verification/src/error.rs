//! The error surfaced when encoding a snapshot fails.

use vstd::prelude::*;

verus! {

/// A serialization failure, carrying the underlying encoder's diagnostic.
/// Encoding is all-or-nothing: an error means no partial output exists.
#[derive(Clone, Debug)]
pub struct Error {
    message: String,
}

impl Error {
    /// The diagnostic text carried.
    pub closed spec fn spec_message(&self) -> Seq<char> {
        self.message@
    }

    /// Wraps an encoder's diagnostic.
    pub fn new(message: String) -> (r: Error)
        ensures
            r.spec_message() == message@,
    {
        Error { message }
    }

    /// The diagnostic text.
    pub fn message(&self) -> (r: &String)
        ensures
            r@ == self.spec_message(),
    {
        &self.message
    }
}

} // verus!
