//! Small building blocks shared by the rest of the runtime.

pub mod atomic_counter;
pub mod decimal;
pub mod io_error;

pub use atomic_counter::AtomicCounter;
pub use decimal::{decimal, decimal_digits};
pub use io_error::{err_eq, ErrorKind, IoError};
