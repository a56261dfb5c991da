//! The error type of SDK helpers and handler wrappers.
use vstd::prelude::*;

verus! {

/// Error type used by SDK helpers and handler wrappers: a message.
#[derive(Debug)]
pub struct Error {
    message: String,
}

impl View for Error {
    type V = Seq<char>;

    closed spec fn view(&self) -> Seq<char> {
        self.message@
    }
}

impl Error {
    /// Creates an error that carries `message`.
    pub fn new(message: &str) -> (e: Self)
        ensures
            e@ == message@,
    {
        Error { message: message.to_string() }
    }

    /// Creates an error that carries `message`.
    pub fn from_message(message: String) -> (e: Self)
        ensures
            e@ == message@,
    {
        Error { message }
    }

    /// The message; what the error displays as.
    pub fn message(&self) -> (m: &str)
        ensures
            m@ == self@,
    {
        self.message.as_str()
    }

    /// The message as an owned string; what `to_string` gives.
    pub fn to_message(&self) -> (m: String)
        ensures
            m@ == self@,
    {
        self.message.clone()
    }
}

impl From<String> for Error {
    fn from(message: String) -> (e: Self) {
        Error { message }
    }
}

impl vstd::std_specs::convert::FromSpecImpl<String> for Error {
    open spec fn obeys_from_spec() -> bool {
        true
    }

    closed spec fn from_spec(v: String) -> Self {
        Error { message: v }
    }
}

} // verus!
