//! CRC32C (Castagnoli) accumulator in finalized form: streaming update
//! with additional bytes, and algebraic combination of the digests of two
//! adjacent buffers into the digest of their concatenation, without
//! rescanning either buffer.
//!
//! Digests are carried in the publicly finalized convention throughout:
//! the digest of the empty buffer under a zero seed is 0, and both the
//! update and the combine take and return finalized values.

use vstd::prelude::*;

verus! {

/// The finalized CRC32C digest reached from the finalized seed `seed`
/// after processing the bytes of `data`, in order.
pub uninterp spec fn crc32c_of(seed: u32, data: Seq<u8>) -> u32;

/// Relies on crc32c::crc32c_append: it extends a finalized CRC32C digest
/// with the bytes of `data`, so that continuing from the digest of a
/// buffer yields the digest of the concatenation; the result depends on
/// the seed and the bytes alone, and empty `data` hands the seed back
/// unchanged.
#[verifier::external_body]
fn crc32c_append_call(seed: u32, data: &[u8]) -> (r: u32)
    ensures
        r == crc32c_of(seed, data@),
        data@.len() == 0 ==> r == seed,
        forall|prev: Seq<u8>| seed == crc32c_of(0, prev) ==> r == crc32c_of(0, prev + data@),
{
    crc32c::crc32c_append(seed, data)
}

/// Relies on crc32c::crc32c_combine: given the finalized digests of two
/// byte streams and the length of the second, it returns the finalized
/// digest of their concatenation; a zero-length second stream hands the
/// first digest back unchanged.
#[verifier::external_body]
fn crc32c_combine_call(crc1: u32, crc2: u32, len2: usize) -> (r: u32)
    ensures
        forall|a: Seq<u8>, b: Seq<u8>|
            crc1 == crc32c_of(0, a) && crc2 == crc32c_of(0, b) && b.len() == len2 ==> r
                == crc32c_of(0, a + b),
        len2 == 0 ==> r == crc1,
{
    crc32c::crc32c_combine(crc1, crc2, len2)
}

/// Extends the finalized digest `init_finalised` with the bytes of `data`:
/// if the seed is the digest of some buffer, the result is the digest of
/// that buffer followed by `data`.  An empty `data` returns the seed.
pub fn crc32c_update(init_finalised: u32, data: &[u8]) -> (r: u32)
    ensures
        r == crc32c_of(init_finalised, data@),
        data@.len() == 0 ==> r == init_finalised,
        forall|prev: Seq<u8>|
            init_finalised == crc32c_of(0, prev) ==> r == crc32c_of(0, prev + data@),
{
    crc32c_append_call(init_finalised, data)
}

/// Combines the finalized digests of two adjacent buffers into the
/// finalized digest of their concatenation, from the digests and the
/// second buffer's length alone.
pub fn crc32c_combine_go(crc1_final: u32, crc2_final: u32, len2: usize) -> (r: u32)
    ensures
        forall|a: Seq<u8>, b: Seq<u8>|
            crc1_final == crc32c_of(0, a) && crc2_final == crc32c_of(0, b) && b.len() == len2
                ==> r == crc32c_of(0, a + b),
        len2 == 0 ==> r == crc1_final,
{
    crc32c_combine_call(crc1_final, crc2_final, len2)
}

/// Combine two finalized CRC32C digests; the boundary name for the 32-bit
/// trampolines.
pub fn crc32_combine_raw(crc1: u32, crc2: u32, len2: usize) -> (r: u32)
    ensures
        forall|a: Seq<u8>, b: Seq<u8>|
            crc1 == crc32c_of(0, a) && crc2 == crc32c_of(0, b) && b.len() == len2 ==> r
                == crc32c_of(0, a + b),
        len2 == 0 ==> r == crc1,
{
    crc32c_combine_go(crc1, crc2, len2)
}

/// Alias of the combine entry point without the `_raw` suffix.
pub fn crc32_combine(crc1: u32, crc2: u32, len2: usize) -> (r: u32)
    ensures
        forall|a: Seq<u8>, b: Seq<u8>|
            crc1 == crc32c_of(0, a) && crc2 == crc32c_of(0, b) && b.len() == len2 ==> r
                == crc32c_of(0, a + b),
        len2 == 0 ==> r == crc1,
{
    crc32c_combine_go(crc1, crc2, len2)
}

/// Update entry point used by the 32-bit trampolines.
pub fn crc32_update_32_raw(data: &[u8], init: u32) -> (r: u32)
    ensures
        r == crc32c_of(init, data@),
        data@.len() == 0 ==> r == init,
        forall|prev: Seq<u8>| init == crc32c_of(0, prev) ==> r == crc32c_of(0, prev + data@),
{
    crc32c_update(init, data)
}

/// Update entry point used by the 64-bit trampolines.
pub fn crc32_update_64_raw(data: &[u8], init: u32) -> (r: u32)
    ensures
        r == crc32c_of(init, data@),
        data@.len() == 0 ==> r == init,
        forall|prev: Seq<u8>| init == crc32c_of(0, prev) ==> r == crc32c_of(0, prev + data@),
{
    crc32c_update(init, data)
}

/// Alias of the 32-bit update entry point without the `_raw` suffix.
pub fn crc32_update_32(data: &[u8], init: u32) -> (r: u32)
    ensures
        r == crc32c_of(init, data@),
        data@.len() == 0 ==> r == init,
        forall|prev: Seq<u8>| init == crc32c_of(0, prev) ==> r == crc32c_of(0, prev + data@),
{
    crc32c_update(init, data)
}

/// Alias of the 64-bit update entry point without the `_raw` suffix.
pub fn crc32_update_64(data: &[u8], init: u32) -> (r: u32)
    ensures
        r == crc32c_of(init, data@),
        data@.len() == 0 ==> r == init,
        forall|prev: Seq<u8>| init == crc32c_of(0, prev) ==> r == crc32c_of(0, prev + data@),
{
    crc32c_update(init, data)
}

} // verus!
