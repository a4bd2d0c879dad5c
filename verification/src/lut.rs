//! Lookup-table kernels: the membership validator, which accepts a buffer
//! iff every byte's table entry is non-zero, and the byte mapper, which
//! replaces each byte by its table entry.  Both scan the buffer in full
//! chunks of a caller-chosen width followed by a scalar remainder pass.

use vstd::prelude::*;

verus! {

/// Every byte of `s` has a non-zero entry in the 256-entry table `t`.
pub open spec fn all_in_table(s: Seq<u8>, t: Seq<u8>) -> bool {
    forall|i: int| 0 <= i < s.len() ==> t[#[trigger] s[i] as int] != 0
}

/// `d` is `s` with every byte replaced by its entry in the table `t`.
pub open spec fn mapped_through(s: Seq<u8>, t: Seq<u8>, d: Seq<u8>) -> bool {
    d.len() == s.len() && forall|i: int| 0 <= i < s.len() ==> d[i] == t[#[trigger] s[i] as int]
}

/// An all-zero table rejects every nonempty buffer.
pub proof fn lemma_zero_table_rejects(s: Seq<u8>, t: Seq<u8>)
    requires
        t.len() == 256,
        forall|i: int| 0 <= i < 256 ==> t[i] == 0,
        s.len() > 0,
    ensures
        !all_in_table(s, t),
{
    assert(t[s[0] as int] == 0);
}

/// A table with no zero entry accepts every buffer.
pub proof fn lemma_full_table_accepts(s: Seq<u8>, t: Seq<u8>)
    requires
        t.len() == 256,
        forall|i: int| 0 <= i < 256 ==> t[i] != 0,
    ensures
        all_in_table(s, t),
{
}

/// Chunked-scan engine for the validator: each full chunk of `w` bytes is
/// reduced to the minimum of its bytes' table entries, and a zero minimum
/// fails the whole buffer at once; the remainder is tested byte by byte.
/// The scan stops at the first failing chunk or byte.
pub fn validate_u8_lut_impl(data: &[u8], table: &[u8], w: usize) -> (r: bool)
    requires
        table@.len() == 256,
        1 <= w,
    ensures
        r == all_in_table(data@, table@),
{
    let n = data.len();
    let mut base: usize = 0;
    while w <= n - base
        invariant
            1 <= w,
            n == data@.len(),
            table@.len() == 256,
            base <= n,
            forall|i: int| 0 <= i < base ==> table@[#[trigger] data@[i] as int] != 0,
        decreases n - base,
    {
        let mut chunk_min: u8 = 255;
        let mut j: usize = 0;
        while j < w
            invariant
                1 <= w,
                n == data@.len(),
                table@.len() == 256,
                base <= n,
                w <= n - base,
                j <= w,
                forall|k: int|
                    0 <= k < j ==> table@[#[trigger] data@[base + k] as int] >= chunk_min,
                j > 0 ==> exists|k: int|
                    0 <= k < j && table@[#[trigger] data@[base + k] as int] == chunk_min,
                j == 0 ==> chunk_min == 255,
            decreases w - j,
        {
            let b = data[base + j];
            let flag = table[b as usize];
            if flag < chunk_min {
                chunk_min = flag;
            }
            j = j + 1;
        }
        if chunk_min == 0 {
            proof {
                let k = choose|k: int|
                    0 <= k < w && table@[#[trigger] data@[base + k] as int] == chunk_min;
                assert(table@[data@[base + k] as int] == 0);
            }
            return false;
        }
        proof {
            assert forall|i: int|
                0 <= i < base + w implies table@[#[trigger] data@[i] as int] != 0 by {
                if i >= base {
                    assert(table@[data@[base + (i - base)] as int] >= chunk_min);
                }
            }
        }
        base = base + w;
    }
    let mut i: usize = base;
    while i < n
        invariant
            n == data@.len(),
            table@.len() == 256,
            i <= n,
            forall|k: int| 0 <= k < i ==> table@[#[trigger] data@[k] as int] != 0,
        decreases n - i,
    {
        let b = data[i];
        if table[b as usize] == 0 {
            return false;
        }
        i = i + 1;
    }
    true
}

/// Membership validator over 16-byte chunks; 1 means every byte passed.
pub fn validate_u8_lut16(data: &[u8], table: &[u8]) -> (r: u8)
    requires
        table@.len() == 256,
    ensures
        r == (if all_in_table(data@, table@) { 1u8 } else { 0u8 }),
{
    if validate_u8_lut_impl(data, table, 16) { 1 } else { 0 }
}

/// Membership validator over 32-byte chunks; 1 means every byte passed.
pub fn validate_u8_lut32(data: &[u8], table: &[u8]) -> (r: u8)
    requires
        table@.len() == 256,
    ensures
        r == (if all_in_table(data@, table@) { 1u8 } else { 0u8 }),
{
    if validate_u8_lut_impl(data, table, 32) { 1 } else { 0 }
}

/// Membership validator over 64-byte chunks; 1 means every byte passed.
pub fn validate_u8_lut64(data: &[u8], table: &[u8]) -> (r: u8)
    requires
        table@.len() == 256,
    ensures
        r == (if all_in_table(data@, table@) { 1u8 } else { 0u8 }),
{
    if validate_u8_lut_impl(data, table, 64) { 1 } else { 0 }
}

/// Chunked-scan engine for the mapper: writes `dst[i] = table[src[i]]` for
/// every index, full chunks of `w` bytes first, then the remainder.  Each
/// output byte depends only on the input byte at the same index.
pub fn map_u8_lut_impl(src: &[u8], dst: &mut Vec<u8>, table: &[u8], w: usize)
    requires
        old(dst)@.len() == src@.len(),
        table@.len() == 256,
        1 <= w,
    ensures
        mapped_through(src@, table@, final(dst)@),
{
    let n = src.len();
    let mut base: usize = 0;
    while w <= n - base
        invariant
            1 <= w,
            n == src@.len(),
            dst@.len() == n,
            table@.len() == 256,
            base <= n,
            forall|i: int| 0 <= i < base ==> dst@[i] == table@[#[trigger] src@[i] as int],
        decreases n - base,
    {
        let mut j: usize = 0;
        while j < w
            invariant
                1 <= w,
                n == src@.len(),
                dst@.len() == n,
                table@.len() == 256,
                base <= n,
                w <= n - base,
                j <= w,
                forall|i: int| 0 <= i < base + j ==> dst@[i] == table@[#[trigger] src@[i] as int],
            decreases w - j,
        {
            let b = src[base + j];
            dst[base + j] = table[b as usize];
            j = j + 1;
        }
        base = base + w;
    }
    let mut i: usize = base;
    while i < n
        invariant
            n == src@.len(),
            dst@.len() == n,
            table@.len() == 256,
            i <= n,
            forall|k: int| 0 <= k < i ==> dst@[k] == table@[#[trigger] src@[k] as int],
        decreases n - i,
    {
        let b = src[i];
        dst[i] = table[b as usize];
        i = i + 1;
    }
}

/// Byte mapper over 16-byte chunks.
pub fn map_u8_lut16(src: &[u8], dst: &mut Vec<u8>, table: &[u8])
    requires
        old(dst)@.len() == src@.len(),
        table@.len() == 256,
    ensures
        mapped_through(src@, table@, final(dst)@),
{
    map_u8_lut_impl(src, dst, table, 16)
}

/// Byte mapper over 32-byte chunks.
pub fn map_u8_lut32(src: &[u8], dst: &mut Vec<u8>, table: &[u8])
    requires
        old(dst)@.len() == src@.len(),
        table@.len() == 256,
    ensures
        mapped_through(src@, table@, final(dst)@),
{
    map_u8_lut_impl(src, dst, table, 32)
}

/// Byte mapper over 64-byte chunks.
pub fn map_u8_lut64(src: &[u8], dst: &mut Vec<u8>, table: &[u8])
    requires
        old(dst)@.len() == src@.len(),
        table@.len() == 256,
    ensures
        mapped_through(src@, table@, final(dst)@),
{
    map_u8_lut_impl(src, dst, table, 64)
}

/// In-place byte mapper: the buffer is both source and destination, the
/// overlap the stateless per-byte substitution makes harmless, since each
/// byte is read before the entry that replaces it is written back.
pub fn map_u8_lut_in_place(data: &mut Vec<u8>, table: &[u8], w: usize)
    requires
        table@.len() == 256,
        1 <= w,
    ensures
        mapped_through(old(data)@, table@, final(data)@),
{
    let n = data.len();
    let mut base: usize = 0;
    while w <= n - base
        invariant
            1 <= w,
            n == old(data)@.len(),
            data@.len() == n,
            table@.len() == 256,
            base <= n,
            forall|i: int|
                0 <= i < base ==> data@[i] == table@[#[trigger] old(data)@[i] as int],
            forall|i: int| base <= i < n ==> #[trigger] data@[i] == old(data)@[i],
        decreases n - base,
    {
        let mut j: usize = 0;
        while j < w
            invariant
                1 <= w,
                n == old(data)@.len(),
                data@.len() == n,
                table@.len() == 256,
                base <= n,
                w <= n - base,
                j <= w,
                forall|i: int|
                    0 <= i < base + j ==> data@[i] == table@[#[trigger] old(data)@[i] as int],
                forall|i: int| base + j <= i < n ==> #[trigger] data@[i] == old(data)@[i],
            decreases w - j,
        {
            let b = data[base + j];
            data[base + j] = table[b as usize];
            j = j + 1;
        }
        base = base + w;
    }
    let mut i: usize = base;
    while i < n
        invariant
            n == old(data)@.len(),
            data@.len() == n,
            table@.len() == 256,
            i <= n,
            forall|k: int|
                0 <= k < i ==> data@[k] == table@[#[trigger] old(data)@[k] as int],
            forall|k: int| i <= k < n ==> #[trigger] data@[k] == old(data)@[k],
        decreases n - i,
    {
        let b = data[i];
        data[i] = table[b as usize];
        i = i + 1;
    }
}

} // verus!
