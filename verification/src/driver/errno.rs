//! Error numbers and the reading of raw system call results.

use vstd::prelude::*;

verus! {

/// The error numbers of the system that the drivers tell apart.
#[derive(Copy, Clone, Debug, PartialEq, Eq, Structural)]
pub struct Numbers {
    /// The call is to be made again later: `EAGAIN`.
    pub again: i32,
    /// The call would block: `EWOULDBLOCK`.
    pub would_block: i32,
    /// The operation is now in progress: `EINPROGRESS`.
    pub in_progress: i32,
    /// The call was interrupted by a signal: `EINTR`.
    pub interrupted: i32,
    /// The resource is busy: `EBUSY`.
    pub busy: i32,
    /// The timer expired: `ETIME`.
    pub timer_expired: i32,
    /// The operation was canceled: `ECANCELED`.
    pub canceled: i32,
}

impl Numbers {
    /// Whether an error number says that the call would block.
    pub open spec fn blocks(self, errno: i32) -> bool {
        errno == self.again || errno == self.would_block
    }
}

/// What a non-blocking system call came to.
pub enum Attempt {
    /// The call is over, with its result or its error number.
    Ready(Result<usize, i32>),
    /// The call would block.
    Pending,
    /// The call was interrupted and is to be made again.
    Again,
}

/// The result of a system call that returned `res`; `errno` is the error number
/// that it left behind.
pub fn syscall(res: isize, errno: i32) -> (r: Result<isize, i32>)
    ensures
        r == (if res == -1 { Err::<isize, i32>(errno) } else { Ok::<isize, i32>(res) }),
{
    if res == -1 {
        Err(errno)
    } else {
        Ok(res)
    }
}

/// What a non-blocking system call that returned `res` and left `errno` behind
/// came to, on a system with these error numbers.
pub open spec fn attempted(res: isize, errno: i32, numbers: Numbers) -> Attempt {
    if res != -1 {
        Attempt::Ready(Ok(res as usize))
    } else if numbers.blocks(errno) || errno == numbers.in_progress {
        Attempt::Pending
    } else if errno == numbers.interrupted {
        Attempt::Again
    } else {
        Attempt::Ready(Err(errno))
    }
}

/// What a non-blocking system call that returned `res` and left `errno` behind
/// came to, on a system with these error numbers.
pub fn syscall_break(res: isize, errno: i32, numbers: Numbers) -> (r: Attempt)
    ensures
        r == attempted(res, errno, numbers),
        r == (if res != -1 {
            Attempt::Ready(Ok(res as usize))
        } else if numbers.blocks(errno) || errno == numbers.in_progress {
            Attempt::Pending
        } else if errno == numbers.interrupted {
            Attempt::Again
        } else {
            Attempt::Ready(Err(errno))
        }),
{
    match syscall(res, errno) {
        Ok(val) => Attempt::Ready(Ok(val as usize)),
        Err(e) => {
            if e == numbers.again || e == numbers.would_block || e == numbers.in_progress {
                Attempt::Pending
            } else if e == numbers.interrupted {
                Attempt::Again
            } else {
                Attempt::Ready(Err(e))
            }
        },
    }
}

/// A call that returned anything but -1 is over with what it returned. One that failed is
/// to be made again if and only if it was interrupted, is pending if and only if it would
/// block or is in progress, and else is over with its error number.
pub proof fn law_attempt_is_told_by_its_number(res: isize, errno: i32, numbers: Numbers)
    ensures
        ({
            let attempt = attempted(res, errno, numbers);
            let pending = errno == numbers.again || errno == numbers.would_block || errno
                == numbers.in_progress;
            &&& attempt matches Attempt::Ready(Ok(val)) ==> res != -1 && val == res as usize
            &&& attempt matches Attempt::Ready(Err(e)) ==> res == -1 && e == errno
            &&& attempt is Pending <==> res == -1 && pending
            &&& attempt is Again <==> res == -1 && !pending && errno == numbers.interrupted
            &&& res != -1 ==> attempt is Ready
        }),
{
}

} // verus!
