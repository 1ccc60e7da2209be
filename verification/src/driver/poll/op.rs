//! Operations on descriptors.

use vstd::prelude::*;

use crate::driver::socket::{settle, RawResult, SocketError};

verus! {

/// The interest to poll a file descriptor.
#[derive(Debug, Clone, Copy, PartialEq, Eq, Structural)]
pub enum Interest {
    /// Represents a read operation.
    Readable,
    /// Represents a write operation.
    Writable,
}

/// Receives the readiness of descriptors.
pub trait Handler<E> {
    /// Submitted interest
    fn readable(&mut self, id: usize);

    /// Submitted interest
    fn writable(&mut self, id: usize);

    /// Operation submission has failed
    fn error(&mut self, id: usize, err: E);

    /// All events are processed, process all updates
    fn commit(&mut self);
}

/// Create socket.
///
/// `joined` is what came of the call on the thread pool, which did not panic.
pub fn create_socket<P, C>(joined: Result<Result<RawResult, P>, C>) -> (r: Result<
    i32,
    SocketError<C>,
>)
    requires
        joined matches Ok(done) ==> done is Ok,
    ensures
        r == crate::driver::socket::settled(joined),
{
    settle(joined)
}

/// Close socket.
///
/// `joined` is what came of the call on the thread pool, which did not panic.
pub fn close_socket<P, C>(joined: Result<Result<RawResult, P>, C>) -> (r: Result<
    i32,
    SocketError<C>,
>)
    requires
        joined matches Ok(done) ==> done is Ok,
    ensures
        r == crate::driver::socket::settled(joined),
{
    settle(joined)
}

} // verus!
