//! The error value shared by every fallible operation.

use vstd::prelude::*;

verus! {

/// What went wrong.
#[derive(Clone, Copy, Debug, PartialEq, Eq, Structural, Hash)]
pub enum ErrorKind {
    /// A string offered as an endpoint is not a URL, or the URL cannot carry
    /// the path asked of it.
    InvalidEndpoint,
    /// The metadata of a service could not be fetched.
    Discovery,
    /// A service does not speak the API version requested of it.
    IncompatibleApiVersion,
    /// A byte stream failed while it was read or written.
    Io,
}

/// An error: its kind and a message for people.
#[derive(Clone, Debug)]
pub struct Error {
    kind: ErrorKind,
    message: String,
}

impl View for Error {
    type V = (ErrorKind, Seq<char>);

    closed spec fn view(&self) -> (ErrorKind, Seq<char>) {
        (self.kind, self.message@)
    }
}

impl Error {
    /// An error of the given kind.
    pub fn new(kind: ErrorKind, message: String) -> (error: Error)
        ensures
            error@ == (kind, message@),
    {
        Error { kind, message }
    }

    /// The kind of this error.
    pub fn kind(&self) -> (kind: ErrorKind)
        ensures
            kind == self@.0,
    {
        self.kind
    }

    /// The message of this error.
    pub fn message(&self) -> (message: &str)
        ensures
            message@ == self@.1,
    {
        self.message.as_str()
    }
}

} // verus!
