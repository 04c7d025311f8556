//! Errors of the thread pool.

use vstd::prelude::*;
use vstd::std_specs::cmp::PartialEqSpecImpl;
use vstd::std_specs::convert::FromSpecImpl;
use vstd::string::StringExecFns;
use crate::util::io_error::{err_eq, err_eq_spec, ErrorKind, IoError};

verus! {

/// Starting a worker thread failed.
#[derive(Debug)]
pub enum StartThreadsError {
    /// The pool has no threads, and spawning one gave this error.
    NoThreads(IoError),
    /// The pool has at least one thread, and spawning another gave this
    /// error.
    Respawn(IoError),
}

/// Making a thread pool failed.
#[derive(Debug)]
pub enum NewThreadPoolError {
    /// A parameter was refused; the text says which.
    Parameter(String),
    /// Spawning a thread gave this error.
    Spawn(IoError),
}

/// Scheduling a job without waiting failed.
#[derive(Debug)]
pub enum TryScheduleError {
    /// The queue of the pool is full.
    QueueFull,
    /// The pool has no threads, and spawning one gave this error.
    NoThreads(IoError),
    /// The pool has at least one thread, and spawning another gave this
    /// error.
    Respawn(IoError),
}

pub open spec fn no_threads_text() -> Seq<char> {
    "ThreadPool workers all panicked, failed starting replacement threads: "@
}

pub open spec fn respawn_text() -> Seq<char> {
    "ThreadPool failed starting threads to replace panicked threads: "@
}

pub open spec fn spawn_text() -> Seq<char> {
    "ThreadPool failed starting threads: "@
}

pub open spec fn queue_full_text() -> Seq<char> {
    "ThreadPool queue is full"@
}

/// `prefix` followed by the text of `error`.
fn prefixed(prefix: &str, error: &IoError) -> (text: String)
    ensures
        text@ == prefix@ + error.message@,
{
    let mut text = String::from_str(prefix);
    text.append(error.message.as_str());
    text
}

impl StartThreadsError {
    /// The text that the error displays.
    pub open spec fn text(self) -> Seq<char> {
        match self {
            StartThreadsError::NoThreads(e) => no_threads_text() + e.message@,
            StartThreadsError::Respawn(e) => respawn_text() + e.message@,
        }
    }

    /// The text that the error displays.
    pub fn to_string(&self) -> (text: String)
        ensures
            text@ == self.text(),
    {
        match self {
            StartThreadsError::NoThreads(e) => prefixed(
                "ThreadPool workers all panicked, failed starting replacement threads: ",
                e,
            ),
            StartThreadsError::Respawn(e) => prefixed(
                "ThreadPool failed starting threads to replace panicked threads: ",
                e,
            ),
        }
    }
}

impl PartialEq for StartThreadsError {
    fn eq(&self, other: &Self) -> (equal: bool) {
        match (self, other) {
            (StartThreadsError::NoThreads(a), StartThreadsError::NoThreads(b)) => err_eq(a, b),
            (StartThreadsError::Respawn(a), StartThreadsError::Respawn(b)) => err_eq(a, b),
            _ => false,
        }
    }
}

impl PartialEqSpecImpl for StartThreadsError {
    open spec fn obeys_eq_spec() -> bool {
        true
    }

    /// Equal when of the same variant with errors that are alike.
    open spec fn eq_spec(&self, other: &Self) -> bool {
        match (*self, *other) {
            (StartThreadsError::NoThreads(a), StartThreadsError::NoThreads(b)) => err_eq_spec(a, b),
            (StartThreadsError::Respawn(a), StartThreadsError::Respawn(b)) => err_eq_spec(a, b),
            _ => false,
        }
    }
}

impl NewThreadPoolError {
    /// The text that the error displays.
    pub open spec fn text(self) -> Seq<char> {
        match self {
            NewThreadPoolError::Parameter(s) => s@,
            NewThreadPoolError::Spawn(e) => spawn_text() + e.message@,
        }
    }

    /// The text that the error displays.
    pub fn to_string(&self) -> (text: String)
        ensures
            text@ == self.text(),
    {
        match self {
            NewThreadPoolError::Parameter(s) => s.clone(),
            NewThreadPoolError::Spawn(e) => prefixed("ThreadPool failed starting threads: ", e),
        }
    }

    /// The error as an input/output error: a refused parameter is invalid
    /// input, a failed spawn is of the kind `Other`.
    pub fn into_io_error(self) -> (error: IoError)
        ensures
            match self {
                NewThreadPoolError::Parameter(s) => error.kind == ErrorKind::InvalidInput
                    && error.message@ == s@,
                NewThreadPoolError::Spawn(e) => error.kind == ErrorKind::Other && error.message@
                    == "failed to start threads: "@ + e.message@,
            },
    {
        match self {
            NewThreadPoolError::Parameter(s) => IoError::new(ErrorKind::InvalidInput, s),
            NewThreadPoolError::Spawn(e) => IoError::new(
                ErrorKind::Other,
                prefixed("failed to start threads: ", &e),
            ),
        }
    }
}

impl PartialEq for NewThreadPoolError {
    fn eq(&self, other: &Self) -> (equal: bool) {
        match (self, other) {
            (NewThreadPoolError::Parameter(a), NewThreadPoolError::Parameter(b)) => *a == *b,
            (NewThreadPoolError::Spawn(a), NewThreadPoolError::Spawn(b)) => err_eq(a, b),
            _ => false,
        }
    }
}

impl PartialEqSpecImpl for NewThreadPoolError {
    open spec fn obeys_eq_spec() -> bool {
        true
    }

    /// Equal when of the same variant, with the same text or with errors
    /// that are alike.
    open spec fn eq_spec(&self, other: &Self) -> bool {
        match (*self, *other) {
            (NewThreadPoolError::Parameter(a), NewThreadPoolError::Parameter(b)) => a@ == b@,
            (NewThreadPoolError::Spawn(a), NewThreadPoolError::Spawn(b)) => err_eq_spec(a, b),
            _ => false,
        }
    }
}

impl Eq for NewThreadPoolError {
}

impl TryScheduleError {
    /// The text that the error displays.
    pub open spec fn text(self) -> Seq<char> {
        match self {
            TryScheduleError::QueueFull => queue_full_text(),
            TryScheduleError::NoThreads(e) => no_threads_text() + e.message@,
            TryScheduleError::Respawn(e) => respawn_text() + e.message@,
        }
    }

    /// The text that the error displays.
    pub fn to_string(&self) -> (text: String)
        ensures
            text@ == self.text(),
    {
        match self {
            TryScheduleError::QueueFull => String::from_str("ThreadPool queue is full"),
            TryScheduleError::NoThreads(e) => prefixed(
                "ThreadPool workers all panicked, failed starting replacement threads: ",
                e,
            ),
            TryScheduleError::Respawn(e) => prefixed(
                "ThreadPool failed starting threads to replace panicked threads: ",
                e,
            ),
        }
    }

    /// The error as an input/output error: a full queue would block, a
    /// failed spawn keeps its kind and is explained by the text.
    pub fn into_io_error(self) -> (error: IoError)
        ensures
            match self {
                TryScheduleError::QueueFull => error.kind == ErrorKind::WouldBlock
                    && error.message@ == "TryScheduleError::QueueFull"@,
                TryScheduleError::NoThreads(e) => error.kind == e.kind && error.message@
                    == no_threads_text() + e.message@,
                TryScheduleError::Respawn(e) => error.kind == e.kind && error.message@
                    == respawn_text() + e.message@,
            },
    {
        match self {
            TryScheduleError::QueueFull => IoError::new(
                ErrorKind::WouldBlock,
                String::from_str("TryScheduleError::QueueFull"),
            ),
            TryScheduleError::NoThreads(e) => {
                let text = prefixed(
                    "ThreadPool workers all panicked, failed starting replacement threads: ",
                    &e,
                );
                IoError::new(e.kind, text)
            },
            TryScheduleError::Respawn(e) => {
                let text = prefixed(
                    "ThreadPool failed starting threads to replace panicked threads: ",
                    &e,
                );
                IoError::new(e.kind, text)
            },
        }
    }
}

impl PartialEq for TryScheduleError {
    fn eq(&self, other: &Self) -> (equal: bool) {
        match (self, other) {
            (TryScheduleError::QueueFull, TryScheduleError::QueueFull) => true,
            (TryScheduleError::NoThreads(a), TryScheduleError::NoThreads(b)) => err_eq(a, b),
            (TryScheduleError::Respawn(a), TryScheduleError::Respawn(b)) => err_eq(a, b),
            _ => false,
        }
    }
}

impl PartialEqSpecImpl for TryScheduleError {
    open spec fn obeys_eq_spec() -> bool {
        true
    }

    /// Equal when of the same variant with errors that are alike.
    open spec fn eq_spec(&self, other: &Self) -> bool {
        match (*self, *other) {
            (TryScheduleError::QueueFull, TryScheduleError::QueueFull) => true,
            (TryScheduleError::NoThreads(a), TryScheduleError::NoThreads(b)) => err_eq_spec(a, b),
            (TryScheduleError::Respawn(a), TryScheduleError::Respawn(b)) => err_eq_spec(a, b),
            _ => false,
        }
    }
}

impl Eq for TryScheduleError {
}

impl From<StartThreadsError> for NewThreadPoolError {
    fn from(err: StartThreadsError) -> (error: NewThreadPoolError) {
        match err {
            StartThreadsError::NoThreads(e) => NewThreadPoolError::Spawn(e),
            StartThreadsError::Respawn(e) => NewThreadPoolError::Spawn(e),
        }
    }
}

impl FromSpecImpl<StartThreadsError> for NewThreadPoolError {
    open spec fn obeys_from_spec() -> bool {
        true
    }

    /// Whichever way starting failed, making the pool failed to spawn.
    open spec fn from_spec(err: StartThreadsError) -> NewThreadPoolError {
        match err {
            StartThreadsError::NoThreads(e) => NewThreadPoolError::Spawn(e),
            StartThreadsError::Respawn(e) => NewThreadPoolError::Spawn(e),
        }
    }
}

impl From<StartThreadsError> for TryScheduleError {
    fn from(err: StartThreadsError) -> (error: TryScheduleError) {
        match err {
            StartThreadsError::NoThreads(e) => TryScheduleError::NoThreads(e),
            StartThreadsError::Respawn(e) => TryScheduleError::Respawn(e),
        }
    }
}

impl FromSpecImpl<StartThreadsError> for TryScheduleError {
    open spec fn obeys_from_spec() -> bool {
        true
    }

    /// The same failure, seen by the one who scheduled.
    open spec fn from_spec(err: StartThreadsError) -> TryScheduleError {
        match err {
            StartThreadsError::NoThreads(e) => TryScheduleError::NoThreads(e),
            StartThreadsError::Respawn(e) => TryScheduleError::Respawn(e),
        }
    }
}

} // verus!
