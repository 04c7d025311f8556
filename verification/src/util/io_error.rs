//! Input/output errors as plain values.

use vstd::prelude::*;

verus! {

/// The category of an input/output error.
#[derive(Clone, Copy, Debug, PartialEq, Eq, Structural)]
pub enum ErrorKind {
    NotFound,
    PermissionDenied,
    ConnectionRefused,
    ConnectionReset,
    ConnectionAborted,
    NotConnected,
    AddrInUse,
    AddrNotAvailable,
    BrokenPipe,
    AlreadyExists,
    WouldBlock,
    InvalidInput,
    InvalidData,
    TimedOut,
    WriteZero,
    Interrupted,
    Unsupported,
    UnexpectedEof,
    OutOfMemory,
    Other,
}

/// An input/output error: its category and the text it displays.
#[derive(Debug)]
pub struct IoError {
    pub kind: ErrorKind,
    pub message: String,
}

impl IoError {
    /// An error of `kind` that displays `message`.
    pub fn new(kind: ErrorKind, message: String) -> (error: IoError)
        ensures
            error.kind == kind,
            error.message == message,
    {
        IoError { kind, message }
    }

    /// The category.
    pub fn kind(&self) -> (kind: ErrorKind)
        ensures
            kind == self.kind,
    {
        self.kind
    }

    /// The text that the error displays.
    pub fn to_string(&self) -> (text: String)
        ensures
            text@ == self.message@,
    {
        self.message.clone()
    }
}

/// Two errors are alike when category and text agree.
pub open spec fn err_eq_spec(a: IoError, b: IoError) -> bool {
    a.kind == b.kind && a.message@ == b.message@
}

/// Whether two errors are alike.
pub fn err_eq(a: &IoError, b: &IoError) -> (alike: bool)
    ensures
        alike == err_eq_spec(*a, *b),
{
    a.kind == b.kind && a.message == b.message
}

} // verus!
