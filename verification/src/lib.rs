//! The core of a small asynchronous runtime, as verified state machines.
//!
//! Every scheduling decision of the runtime is a function on plain values:
//! which task is polled next, which waker a resource invokes, when a timer
//! entry fires, which error a caller sees. Threads, clocks and blocking
//! waits stay with the embedding program, which feeds their outcomes in.

pub mod executor;
pub mod future;
pub mod select;
pub mod sync;
pub mod threadpool;
pub mod timer;
pub mod util;
