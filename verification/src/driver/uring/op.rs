//! Operations on sockets.

use vstd::prelude::*;

use crate::driver::socket::{settle, RawResult, SocketError};

verus! {

/// Create socket.
///
/// `joined` is what came of the call on the thread pool, which did not panic.
pub fn create_socket<P, C>(joined: Result<Result<RawResult, P>, C>) -> (r: Result<
    i32,
    SocketError<C>,
>)
    requires
        joined matches Ok(done) ==> done is Ok,
    ensures
        r == crate::driver::socket::settled(joined),
{
    settle(joined)
}

} // verus!
