//! The platform drivers.

use vstd::prelude::*;

pub mod completion;
pub mod entry;
pub mod errno;
pub mod handlers;
pub mod iour;
pub mod key;
pub mod poll;
pub mod registry;
pub mod socket;
pub mod uring;

verus! {

/// The kind of a driver.
#[derive(Copy, Clone, Debug, PartialEq, Eq, Structural)]
pub enum DriverType {
    Poll,
    IoUring,
}

impl DriverType {
    /// The name of this kind of driver.
    pub fn name(&self) -> (r: &'static str)
        ensures
            self is Poll ==> r@ == "polling"@,
            self is IoUring ==> r@ == "io-uring"@,
    {
        match self {
            DriverType::Poll => "polling",
            DriverType::IoUring => "io-uring",
        }
    }

    /// Whether this is the polling driver.
    pub fn is_polling(&self) -> (r: bool)
        ensures
            r == (self is Poll),
    {
        matches!(self, DriverType::Poll)
    }
}

/// What one turn of the scheduler reports to the driver.
pub enum PollResult<T> {
    /// The awaited value is there.
    Ready(T),
    /// Nothing is left to run.
    Pending,
    /// Some tasks are still queued.
    HasTasks,
}

} // verus!
