//! Submission queue entries of the ring, and what the kernel says it supports.

use ntex_io_uring::opcode::{AsyncCancel, PollAdd};
use ntex_io_uring::squeue::Entry;
use ntex_io_uring::types::Fd;
use ntex_io_uring::Probe;
use vstd::prelude::*;

verus! {

/// A submission queue entry.
#[verifier::external_type_specification]
#[verifier::external_body]
pub struct ExEntry(ntex_io_uring::squeue::Entry);

/// The set of operations that the kernel supports.
#[verifier::external_type_specification]
#[verifier::external_body]
pub struct ExProbe(ntex_io_uring::Probe);

/// The key that `Entry::get_user_data` reads from an entry.
pub uninterp spec fn entry_key(entry: Entry) -> u64;

/// The entry that `Entry::user_data` makes of `entry` and a key.
pub uninterp spec fn entry_with_key(entry: Entry, key: u64) -> Entry;

/// The entry that `AsyncCancel` builds for the operation with key `target`.
pub uninterp spec fn cancel_request(target: u64) -> Entry;

/// The entry that `PollAdd` builds for descriptor `fd`, the events `flags` and
/// the multi-shot mode `multi`.
pub uninterp spec fn poll_request(fd: i32, flags: u32, multi: bool) -> Entry;

/// The opcodes for which `Probe::is_supported` answers yes.
pub uninterp spec fn probe_opcodes(probe: Probe) -> Set<u8>;

/// `Entry::user_data` stores the key in the entry and leaves the rest of it as
/// it is: the result depends on the entry and the key alone, and
/// `Entry::get_user_data` reads the key back.
pub assume_specification[ Entry::user_data ](entry: Entry, user_data: u64) -> (r: Entry)
    ensures
        r == entry_with_key(entry, user_data),
        entry_key(r) == user_data,
;

/// `Probe::is_supported` tells whether an opcode is among the supported ones.
pub assume_specification[ Probe::is_supported ](probe: &Probe, opcode: u8) -> (r: bool)
    ensures
        r == probe_opcodes(*probe).contains(opcode),
;

/// `AsyncCancel::new` and its `build` make the entry that asks the kernel to
/// cancel the operation with key `target`: it depends on that key alone.
#[verifier::external_body]
pub(crate) fn build_cancel(target: u64) -> (r: Entry)
    ensures
        r == cancel_request(target),
{
    AsyncCancel::new(target).build()
}

/// `PollAdd::new`, `multi` and `build` make the entry that asks the kernel to
/// watch `fd` for the events `flags`: it depends on the three arguments alone.
#[verifier::external_body]
pub(crate) fn build_poll(fd: i32, flags: u32, multi: bool) -> (r: Entry)
    ensures
        r == poll_request(fd, flags, multi),
{
    PollAdd::new(Fd(fd), flags).multi(multi).build()
}

} // verus!
