//! The error that handlers report.

use vstd::prelude::*;

verus! {

/// The classification of an [`Error`].
///
/// `Unsupported` is the signal "this URL is not mine, try another handler";
/// every other kind is a failure to read a URL that the handler did claim.
#[derive(Clone, Copy, Debug, PartialEq, Eq, Structural)]
pub enum ErrorKind {
    Unsupported,
    NotFound,
    PermissionDenied,
    InvalidInput,
    InvalidData,
    Other,
}

/// An error with its classification and a message for humans.
#[derive(Debug)]
pub struct Error {
    pub kind: ErrorKind,
    pub message: String,
}

impl View for Error {
    /// The kind and the message.
    type V = (ErrorKind, Seq<char>);

    open spec fn view(&self) -> (ErrorKind, Seq<char>) {
        (self.kind, self.message@)
    }
}

impl Error {
    pub fn new(kind: ErrorKind, message: String) -> (r: Error)
        ensures
            r.kind == kind,
            r.message@ == message@,
    {
        Error { kind, message }
    }

    pub fn kind(&self) -> (r: ErrorKind)
        ensures
            r == self.kind,
    {
        self.kind
    }

    pub fn message(&self) -> (r: &str)
        ensures
            r@ == self.message@,
    {
        self.message.as_str()
    }

    /// Whether this error asks the caller to try another handler.
    pub fn is_unsupported(&self) -> (r: bool)
        ensures
            r == (self.kind == ErrorKind::Unsupported),
    {
        match self.kind {
            ErrorKind::Unsupported => true,
            _ => false,
        }
    }
}

} // verus!
