//! Plugins report one metric per update as JSON in their linear memory; the
//! update function's result packs where that JSON lies.

use vstd::prelude::*;

verus! {

/// Where a plugin's update result says its payload lies: the high 16 bits
/// of the result (as 32 bits) give the offset, the low 16 bits the length.
pub open spec fn packed_location(packed: i32) -> (nat, nat) {
    let u = packed as u32;
    ((u / 65536) as nat, (u % 65536) as nat)
}

/// Splits a plugin's update result into the payload's offset and length.
pub fn unpack_location(packed: i32) -> (r: (usize, usize))
    ensures
        (r.0 as nat, r.1 as nat) == packed_location(packed),
        r.0 < 65536,
        r.1 < 65536,
{
    let hi: i32 = (packed >> 16u32) & 0xffff;
    let lo: i32 = packed & 0xffff;
    assert(hi == ((packed as u32) / 65536) as i32 && 0 <= hi < 65536) by (bit_vector)
        requires
            hi == (packed >> 16u32) & 0xffff,
    ;
    assert(lo == ((packed as u32) % 65536) as i32 && 0 <= lo < 65536) by (bit_vector)
        requires
            lo == packed & 0xffff,
    ;
    (hi as usize, lo as usize)
}

/// The byte range of the payload in a memory of `mem_len` bytes, `None`
/// when it does not fit.
pub fn payload_range(ptr: usize, len: usize, mem_len: usize) -> (r: Option<(usize, usize)>)
    requires
        ptr < 65536,
        len < 65536,
    ensures
        r == (if ptr + len <= mem_len {
            Some((ptr, (ptr + len) as usize))
        } else {
            None
        }),
{
    if ptr + len <= mem_len {
        Some((ptr, ptr + len))
    } else {
        None
    }
}

/// The byte range that a plugin's log call names: from `ptr` to
/// `ptr + len`, each taken as a memory index (`as usize`), when it is an
/// ordered range within a memory of `mem_len` bytes.
pub open spec fn log_range_spec(ptr: i32, len: i32, mem_len: usize) -> Option<(usize, usize)> {
    let start = ptr as usize;
    let end = (ptr + len) as usize;
    if start <= end && end <= mem_len {
        Some((start, end))
    } else {
        None
    }
}

/// The bytes of a plugin's memory that its log call `nacre_log(ptr, len)`
/// names, `None` when they are not a range within the memory. The sum
/// `ptr + len` must fit in an `i32`: its overflow panics.
pub fn log_range(ptr: i32, len: i32, mem_len: usize) -> (r: Option<(usize, usize)>)
    requires
        i32::MIN <= ptr + len <= i32::MAX,
    ensures
        r == log_range_spec(ptr, len, mem_len),
{
    let start = ptr as usize;
    let end = (ptr + len) as usize;
    if start <= end && end <= mem_len {
        Some((start, end))
    } else {
        None
    }
}

/// A packed location always lies within the first 2^32 bytes and is
/// recovered exactly from the offset and length.
pub proof fn lemma_location_roundtrip(packed: i32)
    ensures
        packed_location(packed).0 * 65536 + packed_location(packed).1 == packed as u32,
{
}

} // verus!
