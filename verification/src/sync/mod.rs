//! Synchronisation between tasks: a mutex and bounded channels.

pub mod channel;
pub mod mutex;

pub use channel::{
    oneshot, sync_channel, ChannelView, OneSender, Receiver, RecvError, RecvTimeoutError,
    SendError, SendFuture, SyncSender, TryRecvError, TrySendError,
};
pub use mutex::{LockFuture, Mutex, MutexGuard, MutexView};
