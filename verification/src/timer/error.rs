//! Errors of the timer service.

use vstd::prelude::*;
use vstd::string::StringExecFns;
use crate::util::io_error::{ErrorKind, IoError};

verus! {

/// A wake was scheduled before the timer thread was started.
#[derive(Debug, PartialEq, Eq, Structural)]
pub struct TimerThreadNotStarted {}

/// The deadline passed before the guarded operation completed.
#[derive(Debug, PartialEq, Eq, Structural)]
pub struct DeadlineExceeded;

/// Why a deadline-guarded poll ended without the inner result.
#[derive(Debug, PartialEq, Eq, Structural)]
pub enum DeadlineError {
    TimerThreadNotStarted,
    DeadlineExceeded,
}

impl TimerThreadNotStarted {
    /// The text that the error displays.
    pub fn to_string(&self) -> (text: String)
        ensures
            text@ == "TimerThreadNotStarted"@,
    {
        String::from_str("TimerThreadNotStarted")
    }
}

impl DeadlineExceeded {
    /// The text that the error displays.
    pub fn to_string(&self) -> (text: String)
        ensures
            text@ == "DeadlineExceeded"@,
    {
        String::from_str("DeadlineExceeded")
    }

    /// The error as an input/output error: the operation timed out.
    pub fn into_io_error(self) -> (error: IoError)
        ensures
            error.kind == ErrorKind::TimedOut,
            error.message@ == "DeadlineExceeded"@,
    {
        IoError::new(ErrorKind::TimedOut, String::from_str("DeadlineExceeded"))
    }
}

impl DeadlineError {
    /// The text that the error displays.
    pub fn to_string(&self) -> (text: String)
        ensures
            text@ == (match *self {
                DeadlineError::TimerThreadNotStarted => "TimerThreadNotStarted"@,
                DeadlineError::DeadlineExceeded => "DeadlineExceeded"@,
            }),
    {
        match self {
            DeadlineError::TimerThreadNotStarted => String::from_str("TimerThreadNotStarted"),
            DeadlineError::DeadlineExceeded => String::from_str("DeadlineExceeded"),
        }
    }

    /// The error as an input/output error: a passed deadline is a
    /// timeout, a missing timer thread is of the kind `Other`.
    pub fn into_io_error(self) -> (error: IoError)
        ensures
            match self {
                DeadlineError::TimerThreadNotStarted => error.kind == ErrorKind::Other
                    && error.message@ == "TimerThreadNotStarted"@,
                DeadlineError::DeadlineExceeded => error.kind == ErrorKind::TimedOut
                    && error.message@ == "DeadlineExceeded"@,
            },
    {
        match self {
            DeadlineError::TimerThreadNotStarted => IoError::new(
                ErrorKind::Other,
                String::from_str("TimerThreadNotStarted"),
            ),
            DeadlineError::DeadlineExceeded => IoError::new(
                ErrorKind::TimedOut,
                String::from_str("DeadlineExceeded"),
            ),
        }
    }
}

} // verus!
