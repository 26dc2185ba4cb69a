use vstd::prelude::*;

verus! {

/// A single opaque failure kind: every store-level failure is surfaced to the
/// service boundary as one of these, carrying only a description.
#[derive(Debug)]
pub struct Error {
    pub message: String,
}

impl Error {
    pub fn new(message: &str) -> (r: Error)
        ensures
            r.message@ == message@,
    {
        Error { message: message.to_owned() }
    }

    /// The description of the failure.
    pub fn message(&self) -> (r: &str)
        ensures
            r@ == self.message@,
    {
        self.message.as_str()
    }
}

} // verus!
