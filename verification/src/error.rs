//! The error that the commands report.

use vstd::prelude::*;
use vstd::string::*;

verus! {

/// A failure, with the message shown to the user.
#[derive(Debug, Clone, PartialEq, Eq)]
pub struct Error {
    message: String,
}

impl View for Error {
    type V = Seq<char>;

    closed spec fn view(&self) -> Seq<char> {
        self.message@
    }
}

impl Error {
    /// A failure with the message `s`.
    pub fn new(s: &str) -> (out: Self)
        ensures
            out@ == s@,
    {
        Error { message: String::from_str(s) }
    }

    /// The message.
    pub fn message(&self) -> (out: String)
        ensures
            out@ == self@,
    {
        self.message.clone()
    }
}

} // verus!
