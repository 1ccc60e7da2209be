//! The 64-bit keys that travel through the kernel.
//!
//! A key carries the number of a handler in its upper 16 bits and the handler's
//! own id of the operation in the lower 48 bits. Two keys are reserved: one for
//! the wake-up channel, one for cancel requests.

use vstd::prelude::*;

verus! {

/// The key of the wake-up channel.
pub const NOTIFY: u64 = 0xFFFF_FFFF_FFFF_FFFF;

/// The key of cancel requests.
pub const CANCEL: u64 = 0xFFFF_FFFF_FFFF_FFFE;

/// The position of the handler number in a key.
pub const BATCH: u64 = 48;

/// The bits of a key that hold the handler number.
pub const BATCH_MASK: u64 = 0xFFFF_0000_0000_0000;

/// The bits of a key that hold the handler's id.
pub const DATA_MASK: u64 = 0x0000_FFFF_FFFF_FFFF;

/// How many handler numbers a key can tell apart.
pub open spec fn batches() -> int {
    0x1_0000
}

/// How many ids a key can tell apart within one handler.
pub open spec fn ids() -> int {
    0x1_0000_0000_0000
}

/// The part of a key that stands for handler `hid`.
pub open spec fn batch_key(hid: u64) -> u64 {
    ((hid as int % batches()) * ids()) as u64
}

/// The key of operation `id` under the handler part `batch`.
pub open spec fn op_key(batch: u64, id: u32) -> u64 {
    (batch + id) as u64
}

/// The handler number in a key.
pub open spec fn key_batch(key: u64) -> int {
    key as int / ids()
}

/// The handler's id in a key.
pub open spec fn key_data(key: u64) -> int {
    key as int % ids()
}

/// Whether `batch` is the handler part of a key, with nothing in its lower bits.
pub open spec fn is_batch(batch: u64) -> bool {
    batch as int % ids() == 0
}

/// The handler part of the keys of handler `hid`.
pub fn encode_batch(hid: u64) -> (r: u64)
    ensures
        r == batch_key(hid),
        is_batch(r),
{
    let r: u64 = hid << BATCH;
    assert((hid << 48u64) == (hid % 0x1_0000) * 0x1_0000_0000_0000) by (bit_vector);
    assert((hid << 48u64) % 0x1_0000_0000_0000u64 == 0) by (bit_vector);
    r
}

/// The key of operation `id` under the handler part `batch`.
pub fn encode(batch: u64, id: u32) -> (r: u64)
    requires
        is_batch(batch),
    ensures
        r == op_key(batch, id),
        r == batch + id,
{
    let r: u64 = id as u64 | batch;
    assert((id as u64 | batch) == batch + id) by (bit_vector)
        requires
            batch % 0x1_0000_0000_0000u64 == 0,
    ;
    r
}

/// The handler number in a key.
pub fn decode_batch(key: u64) -> (r: usize)
    ensures
        r == key_batch(key),
        r < batches(),
{
    assert(((key & 0xFFFF_0000_0000_0000u64) >> 48u64) == key / 0x1_0000_0000_0000u64)
        by (bit_vector);
    assert(key / 0x1_0000_0000_0000u64 < 0x1_0000) by (bit_vector);
    ((key & BATCH_MASK) >> BATCH) as usize
}

/// The handler's id in a key.
pub fn decode_data(key: u64) -> (r: usize)
    ensures
        r == (key_data(key) as u64) as usize,
        key_data(key) <= usize::MAX ==> r == key_data(key),
{
    assert((key & 0x0000_FFFF_FFFF_FFFFu64) == key % 0x1_0000_0000_0000u64) by (bit_vector);
    (key & DATA_MASK) as usize
}

/// A key leads back to the handler and the id that it was made of, as long as
/// the handler number fits in its bits.
pub proof fn law_key_leads_back(hid: u64, id: u32)
    requires
        hid < batches(),
    ensures
        key_batch(op_key(batch_key(hid), id)) == hid,
        key_data(op_key(batch_key(hid), id)) == id,
{
    assert((hid as int % batches()) == hid);
    assert(hid * 0x1_0000_0000_0000 + id <= u64::MAX);
}

/// No two operations share a key, as long as their handler numbers fit.
pub proof fn law_keys_are_distinct(hid1: u64, id1: u32, hid2: u64, id2: u32)
    requires
        hid1 < batches(),
        hid2 < batches(),
        op_key(batch_key(hid1), id1) == op_key(batch_key(hid2), id2),
    ensures
        hid1 == hid2,
        id1 == id2,
{
    law_key_leads_back(hid1, id1);
    law_key_leads_back(hid2, id2);
}

/// No operation, under any handler, has a reserved key.
pub proof fn law_keys_are_not_reserved(hid: u64, id: u32)
    ensures
        op_key(batch_key(hid), id) != NOTIFY,
        op_key(batch_key(hid), id) != CANCEL,
{
    let b: int = hid as int % batches();
    assert(b * 0x1_0000_0000_0000 + id <= 0xFFFF * 0x1_0000_0000_0000 + 0xFFFF_FFFF);
}

/// Handler numbers that differ by a multiple of the number of batches share
/// their keys.
pub proof fn law_batches_wrap(hid: u64, id: u32)
    requires
        hid + batches() <= u64::MAX,
    ensures
        op_key(batch_key((hid + batches()) as u64), id) == op_key(batch_key(hid), id),
{
}

/// A key is its handler number and its id side by side: the number counts steps of
/// 2^48, the id is what is beyond them.
pub proof fn law_key_is_number_and_id(key: u64)
    ensures
        key == key_batch(key) * 0x1_0000_0000_0000 + key_data(key),
        0 <= key_batch(key) < 0x1_0000,
        0 <= key_data(key) < 0x1_0000_0000_0000,
{
}

/// The key of operation `id` of handler `hid` has the number of the handler in its upper
/// 16 bits and the id in the others.
pub proof fn law_key_has_the_number_above_the_id(hid: u64, id: u32)
    requires
        hid < 0x1_0000,
    ensures
        op_key(batch_key(hid), id) == hid * 0x1_0000_0000_0000 + id,
        batch_key(hid) == hid * 0x1_0000_0000_0000,
        is_batch(batch_key(hid)),
{
    law_key_leads_back(hid, id);
    law_key_is_number_and_id(op_key(batch_key(hid), id));
}

/// The reserved keys are the two greatest ones.
pub proof fn law_reserved_keys_are_the_greatest()
    ensures
        NOTIFY == u64::MAX,
        CANCEL == u64::MAX - 1,
{
}

} // verus!
