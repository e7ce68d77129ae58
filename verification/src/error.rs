use vstd::prelude::*;

verus! {

/// An error with a human readable message, as reported to the site author.
#[derive(Debug)]
pub struct Error {
    pub message: String,
}

impl Error {
    /// Creates an error holding `message`.
    pub fn msg(message: String) -> (e: Error)
        ensures
            e.message@ == message@,
    {
        Error { message }
    }

    /// The message of the error.
    pub fn to_message(&self) -> (s: String)
        ensures
            s@ == self.message@,
    {
        self.message.clone()
    }
}

} // verus!
