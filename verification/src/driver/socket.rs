//! Socket calls that are made on the thread pool.

use vstd::pervasive::unreached;
use vstd::prelude::*;

use super::errno::syscall;

verus! {

/// Why there is no result of a socket call.
pub enum SocketError<C> {
    /// The call failed with this error number.
    Os(i32),
    /// The thread pool gave up the call.
    Canceled(C),
}

/// The raw return value of a system call and the error number that it left behind.
#[derive(Copy, Clone, Debug, PartialEq, Eq, Structural)]
pub struct RawResult {
    pub res: i32,
    pub errno: i32,
}

/// What a socket call came to, that was awaited with the outcome `joined`.
pub open spec fn settled<P, C>(joined: Result<Result<RawResult, P>, C>) -> Result<
    i32,
    SocketError<C>,
> {
    match joined {
        Ok(done) => if done->Ok_0.res == -1 {
            Err(SocketError::Os(done->Ok_0.errno))
        } else {
            Ok(done->Ok_0.res)
        },
        Err(canceled) => Err(SocketError::Canceled(canceled)),
    }
}

/// What a socket call came to, that was awaited with the outcome `joined`; a call
/// that panicked has no outcome here.
pub fn settle<P, C>(joined: Result<Result<RawResult, P>, C>) -> (r: Result<i32, SocketError<C>>)
    requires
        joined matches Ok(done) ==> done is Ok,
    ensures
        r == settled(joined),
{
    match joined {
        Ok(done) => match done {
            Ok(raw) => match syscall(raw.res as isize, raw.errno) {
                Ok(_) => Ok(raw.res),
                Err(errno) => Err(SocketError::Os(errno)),
            },
            Err(_) => unreached(),
        },
        Err(canceled) => Err(SocketError::Canceled(canceled)),
    }
}

/// A call that was made is over with what it returned, unless that is -1: then with the
/// error number that it left behind. A call that was given up is over with the reason.
pub proof fn law_socket_call_is_settled<P, C>(raw: RawResult, canceled: C)
    ensures
        settled::<P, C>(Ok(Ok(raw))) is Ok <==> raw.res != -1,
        settled::<P, C>(Ok(Ok(raw))) matches Ok(res) ==> res == raw.res,
        settled::<P, C>(Ok(Ok(raw))) matches Err(error) ==> error == SocketError::<C>::Os(
            raw.errno,
        ),
        settled::<P, C>(Err(canceled)) == Err::<i32, SocketError<C>>(
            SocketError::Canceled(canceled),
        ),
{
}

} // verus!
