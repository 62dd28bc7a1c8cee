//! The error type shared by every stream operation.

use vstd::prelude::*;

verus! {

/// The general category of an I/O failure.
#[derive(Clone, Copy, Debug, PartialEq, Eq, Structural)]
pub enum ErrorKind {
    FileNotFound,
    PermissionDenied,
    ConnectionRefused,
    ConnectionReset,
    ConnectionAborted,
    NotConnected,
    BrokenPipe,
    PathAlreadyExists,
    MismatchedFileTypeForOperation,
    ResourceUnavailable,
    /// A parameter was incorrect, such as a seek to a negative offset.
    InvalidInput,
    TimedOut,
    Interrupted,
    /// A sink stopped taking bytes while some were still to be written.
    EndOfFile,
    Other,
}

/// An I/O failure: its kind, a fixed description and an optional detail.
#[derive(Clone, Debug, PartialEq, Eq)]
pub struct Error {
    pub kind: ErrorKind,
    pub desc: &'static str,
    pub detail: Option<String>,
}

impl Error {
    /// Builds an error from its three parts.
    pub fn new(kind: ErrorKind, desc: &'static str, detail: Option<String>) -> (e: Error)
        ensures
            e == (Error { kind, desc, detail }),
    {
        Error { kind, desc, detail }
    }

    /// The category of this error.
    pub fn kind(&self) -> (k: ErrorKind)
        ensures
            k == self.kind,
    {
        self.kind
    }

    /// The fixed description given when the error was built.
    pub fn description(&self) -> (d: &'static str)
        ensures
            d == self.desc,
    {
        self.desc
    }

    /// The detail given when the error was built, if any.
    pub fn detail(&self) -> (d: &Option<String>)
        ensures
            *d == self.detail,
    {
        &self.detail
    }
}

/// The result of a stream operation.
pub type Result<T> = core::result::Result<T, Error>;

} // verus!
