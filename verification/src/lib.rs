//! The verified core of a thread-local async runtime.
//!
//! The crate holds what the runtime decides: which tasks run next and when the
//! driver has to be woken, what is handed to the kernel and in what order, which
//! handler a completion belongs to, and when the thread may block. System calls,
//! threads and futures stay with the caller, who performs the action that a
//! function asks for and reports the outcome back.

pub mod driver;
pub mod rt;
pub mod time;

pub use rt::builder::RuntimeBuilder;
