//! Wrapped byte sum: the total of all byte values of a buffer, reduced
//! modulo 2^32, computed by a width-parameterized chunked scan.

use vstd::prelude::*;

verus! {

use vstd::arithmetic::div_mod::lemma_add_mod_noop;
use vstd::arithmetic::div_mod::lemma_small_mod;

/// The mathematical total of all byte values of `s`.
pub open spec fn sum_bytes(s: Seq<u8>) -> int
    decreases s.len(),
{
    if s.len() == 0 {
        0
    } else {
        sum_bytes(s.drop_last()) + s.last()
    }
}

pub proof fn lemma_sum_bytes_nonneg(s: Seq<u8>)
    ensures
        sum_bytes(s) >= 0,
    decreases s.len(),
{
    if s.len() > 0 {
        lemma_sum_bytes_nonneg(s.drop_last());
    }
}

/// The total of a concatenation is the sum of the totals of its parts.
pub proof fn lemma_sum_bytes_concat(a: Seq<u8>, b: Seq<u8>)
    ensures
        sum_bytes(a + b) == sum_bytes(a) + sum_bytes(b),
    decreases b.len(),
{
    if b.len() == 0 {
        assert(a + b =~= a);
    } else {
        lemma_sum_bytes_concat(a, b.drop_last());
        assert((a + b).drop_last() =~= a + b.drop_last());
    }
}

/// Masking a 64-bit value with the low 32 bits is reduction modulo 2^32.
proof fn lemma_mask_is_mod_2_32(x: u64)
    ensures
        x & 0xFFFF_FFFF == x % 0x1_0000_0000,
        x & 0xFFFF_FFFF < 0x1_0000_0000,
{
    assert(x & 0xFFFF_FFFF == x % 0x1_0000_0000) by (bit_vector);
    assert(x & 0xFFFF_FFFF < 0x1_0000_0000) by (bit_vector);
}

/// Appending one byte to a prefix grows its total by that byte.
proof fn lemma_sum_bytes_extend(s: Seq<u8>, lo: int, hi: int)
    requires
        0 <= lo <= hi < s.len(),
    ensures
        sum_bytes(s.subrange(lo, hi + 1)) == sum_bytes(s.subrange(lo, hi)) + s[hi],
{
    let sub = s.subrange(lo, hi + 1);
    assert(sub.drop_last() =~= s.subrange(lo, hi));
}

/// Chunked-scan engine for the wrapped sum: full chunks of `w` bytes are
/// reduced first, then the remainder is folded in byte by byte.  The result
/// is the low 32 bits of the true total, for every supported width alike.
pub fn sum_u8_impl(data: &[u8], w: usize) -> (r: u32)
    requires
        1 <= w,
    ensures
        r == sum_bytes(data@) % 0x1_0000_0000,
{
    let n = data.len();
    let mut total: u64 = 0;
    let mut base: usize = 0;
    proof {
        assert(data@.subrange(0, 0) =~= Seq::<u8>::empty());
    }
    while w <= n - base
        invariant
            1 <= w,
            n == data@.len(),
            base <= n,
            total == sum_bytes(data@.subrange(0, base as int)) % 0x1_0000_0000,
            total < 0x1_0000_0000,
        decreases n - base,
    {
        let mut chunk_sum: u64 = 0;
        let mut j: usize = 0;
        proof {
            assert(data@.subrange(base as int, base as int) =~= Seq::<u8>::empty());
        }
        while j < w
            invariant
                1 <= w,
                n == data@.len(),
                base <= n,
                w <= n - base,
                j <= w,
                chunk_sum == sum_bytes(data@.subrange(base as int, base + j)) % 0x1_0000_0000,
                chunk_sum < 0x1_0000_0000,
            decreases w - j,
        {
            let b = data[base + j];
            proof {
                lemma_sum_bytes_extend(data@, base as int, base + j);
                lemma_sum_bytes_nonneg(data@.subrange(base as int, base + j));
                lemma_add_mod_noop(
                    sum_bytes(data@.subrange(base as int, base + j)),
                    b as int,
                    0x1_0000_0000,
                );
                lemma_small_mod(b as nat, 0x1_0000_0000);
                lemma_mask_is_mod_2_32((chunk_sum + b as u64) as u64);
            }
            chunk_sum = (chunk_sum + b as u64) & 0xFFFF_FFFF;
            j = j + 1;
        }
        proof {
            let prefix = data@.subrange(0, base as int);
            let chunk = data@.subrange(base as int, base + w);
            assert(data@.subrange(0, base + w) =~= prefix + chunk);
            lemma_sum_bytes_concat(prefix, chunk);
            lemma_sum_bytes_nonneg(prefix);
            lemma_sum_bytes_nonneg(chunk);
            lemma_add_mod_noop(sum_bytes(prefix), sum_bytes(chunk), 0x1_0000_0000);
            lemma_mask_is_mod_2_32((total + chunk_sum) as u64);
        }
        total = (total + chunk_sum) & 0xFFFF_FFFF;
        base = base + w;
    }
    let mut i: usize = base;
    while i < n
        invariant
            n == data@.len(),
            i <= n,
            total == sum_bytes(data@.subrange(0, i as int)) % 0x1_0000_0000,
            total < 0x1_0000_0000,
        decreases n - i,
    {
        let b = data[i];
        proof {
            lemma_sum_bytes_extend(data@, 0, i as int);
            lemma_sum_bytes_nonneg(data@.subrange(0, i as int));
            lemma_add_mod_noop(
                sum_bytes(data@.subrange(0, i as int)),
                b as int,
                0x1_0000_0000,
            );
            lemma_small_mod(b as nat, 0x1_0000_0000);
            lemma_mask_is_mod_2_32((total + b as u64) as u64);
        }
        total = (total + b as u64) & 0xFFFF_FFFF;
        i = i + 1;
    }
    proof {
        assert(data@.subrange(0, n as int) =~= data@);
    }
    total as u32
}

/// Wrapped byte sum over 16-byte chunks.
pub fn sum_u8_16(data: &[u8]) -> (r: u32)
    ensures
        r == sum_bytes(data@) % 0x1_0000_0000,
{
    sum_u8_impl(data, 16)
}

/// Wrapped byte sum over 32-byte chunks.
pub fn sum_u8_32(data: &[u8]) -> (r: u32)
    ensures
        r == sum_bytes(data@) % 0x1_0000_0000,
{
    sum_u8_impl(data, 32)
}

/// Wrapped byte sum over 64-byte chunks.
pub fn sum_u8_64(data: &[u8]) -> (r: u32)
    ensures
        r == sum_bytes(data@) % 0x1_0000_0000,
{
    sum_u8_impl(data, 64)
}

} // verus!
