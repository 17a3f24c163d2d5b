use vstd::prelude::*;

verus! {

/// Error reports why a matrix could not be built, as a message.
#[derive(Debug, Eq, PartialEq)]
pub struct Error {
    msg: String,
}

impl View for Error {
    type V = Seq<char>;

    /// The message.
    closed spec fn view(&self) -> Seq<char> {
        self.msg@
    }
}

impl Error {
    /// An error carrying the given message.
    pub fn new(msg: String) -> (r: Error)
        ensures
            r@ == msg@,
    {
        Error { msg }
    }

    /// The message, as text.
    pub fn message(&self) -> (r: &str)
        ensures
            r@ == self@,
    {
        self.msg.as_str()
    }

    /// The message, as an owned string.
    pub fn to_string(&self) -> (r: String)
        ensures
            r@ == self@,
    {
        self.msg.clone()
    }
}

/// Result is the outcome of an operation that can fail with an Error.
pub type Result<T> = core::result::Result<T, Error>;

} // verus!
