//! Needle-equality bitmask: one word per full chunk of the buffer, whose
//! bit `k` is set iff byte `k` of that chunk equals the needle.  Remainder
//! bytes beyond the last full chunk never reach any output word.

use vstd::prelude::*;

verus! {

use vstd::arithmetic::div_mod::lemma_fundamental_div_mod;
use vstd::arithmetic::div_mod::lemma_mod_bound;
use vstd::arithmetic::mul::lemma_mul_inequality;

/// Bit `k` (counted from the least significant end) of the word `m` is set.
pub open spec fn word_bit(m: u64, k: u64) -> bool {
    (m >> k) & 1u64 == 1u64
}

/// Setting bit `j` sets exactly bit `j` and leaves every other bit alone.
proof fn lemma_set_bit(m: u64, j: u64, k: u64)
    requires
        j < 64,
        k < 64,
    ensures
        word_bit(m | (1u64 << j), j),
        k != j ==> word_bit(m | (1u64 << j), k) == word_bit(m, k),
{
    assert(((m | (1u64 << j)) >> j) & 1u64 == 1u64) by (bit_vector)
        requires
            j < 64,
    ;
    assert(k != j ==> (((m | (1u64 << j)) >> k) & 1u64 == 1u64) == ((m >> k) & 1u64 == 1u64))
        by (bit_vector)
        requires
            j < 64 && k < 64,
    ;
}

/// A word whose bits from `j` upward are zero has no bit set at or above `j`.
proof fn lemma_high_bits_zero(m: u64, j: u64, k: u64)
    requires
        m >> j == 0,
        j <= k < 64,
    ensures
        !word_bit(m, k),
{
    assert((m >> j == 0 && j <= k && k < 64) ==> (m >> k) & 1u64 != 1u64) by (bit_vector);
}

/// Setting bit `j` of a word that is zero from bit `j` upward yields a word
/// that is zero from bit `j + 1` upward; so does leaving it unchanged.
proof fn lemma_shift_zero_step(m: u64, j: u64)
    requires
        j < 64,
        m >> j == 0,
    ensures
        j + 1 < 64 ==> (m | (1u64 << j)) >> (j + 1) as u64 == 0,
        j + 1 < 64 ==> m >> (j + 1) as u64 == 0,
{
    assert((j + 1 < 64 && m >> j == 0) ==> (m | (1u64 << j)) >> (j + 1) as u64 == 0)
        by (bit_vector)
        requires
            j < 64,
    ;
    assert((j + 1 < 64 && m >> j == 0) ==> m >> (j + 1) as u64 == 0) by (bit_vector)
        requires
            j < 64,
    ;
}

/// A word that is zero from bit 16 upward survives the round trip through
/// a 16-bit word, and likewise for 32 bits.
proof fn lemma_narrow_cast(m: u64)
    ensures
        m >> 16 == 0 ==> m <= 0xFFFF && (m as u16) as u64 == m,
        m >> 32 == 0 ==> m <= 0xFFFF_FFFF && (m as u32) as u64 == m,
{
    assert(m >> 16 == 0 ==> m <= 0xFFFF && (m as u16) as u64 == m) by (bit_vector);
    assert(m >> 32 == 0 ==> m <= 0xFFFF_FFFF && (m as u32) as u64 == m) by (bit_vector);
}

/// Per-chunk reduction: the equality mask of the `w` bytes starting at
/// `base`, with bit `k` set iff the byte at `base + k` equals `needle`.
/// Bits at `w` and above are zero.
fn eq_mask_chunk(data: &[u8], base: usize, w: usize, needle: u8) -> (m: u64)
    requires
        1 <= w <= 64,
        base + w <= data@.len(),
    ensures
        forall|k: u64| k < w ==> (#[trigger] word_bit(m, k) <==> data@[base + k as int] == needle),
        w < 64 ==> m >> (w as u64) == 0,
{
    let n = data.len();
    let mut m: u64 = 0;
    let mut j: usize = 0;
    proof {
        assert(0u64 >> 0u64 == 0) by (bit_vector);
    }
    while j < w
        invariant
            1 <= w <= 64,
            n == data@.len(),
            base + w <= n,
            j <= w,
            forall|k: u64|
                k < j ==> (#[trigger] word_bit(m, k) <==> data@[base + k as int] == needle),
            j < 64 ==> m >> (j as u64) == 0,
        decreases w - j,
    {
        let prev = m;
        let hit = data[base + j] == needle;
        if hit {
            m = m | (1u64 << j);
        }
        proof {
            lemma_shift_zero_step(prev, j as u64);
            assert forall|k: u64|
                k < j + 1 implies (#[trigger] word_bit(m, k) <==> data@[base + k as int]
                == needle) by {
                if hit {
                    lemma_set_bit(prev, j as u64, k);
                } else {
                    if k == j {
                        lemma_high_bits_zero(prev, j as u64, k);
                    }
                }
            }
        }
        j = j + 1;
    }
    m
}

/// Equality bitmask over 16-byte chunks: writes one 16-bit word per full
/// chunk into `out` and returns the number of words written.
pub fn eq_u8_masks16(data: &[u8], needle: u8, out: &mut Vec<u16>) -> (count: usize)
    requires
        old(out)@.len() >= data@.len() as int / 16,
    ensures
        count == data@.len() as int / 16,
        final(out)@.len() == old(out)@.len(),
        forall|c: int, k: u64|
            0 <= c < count && k < 16 ==> (#[trigger] word_bit(final(out)@[c] as u64, k)
                <==> data@[c * 16 + k as int] == needle),
        forall|c: int| count <= c < old(out)@.len() ==> final(out)@[c] == old(out)@[c],
{
    let n = data.len();
    let count = n / 16;
    proof {
        lemma_fundamental_div_mod(n as int, 16);
        lemma_mod_bound(n as int, 16);
    }
    let mut c: usize = 0;
    while c < count
        invariant
            n == data@.len(),
            count == n as int / 16,
            16 * count <= n,
            out@.len() == old(out)@.len(),
            count <= out@.len(),
            c <= count,
            forall|cc: int, k: u64|
                0 <= cc < c && k < 16 ==> (#[trigger] word_bit(out@[cc] as u64, k)
                    <==> data@[cc * 16 + k as int] == needle),
            forall|cc: int| c <= cc < out@.len() ==> out@[cc] == old(out)@[cc],
        decreases count - c,
    {
        proof {
            lemma_mul_inequality(c + 1, count as int, 16);
        }
        let base = c * 16;
        let m = eq_mask_chunk(data, base, 16, needle);
        proof {
            lemma_narrow_cast(m);
        }
        out[c] = m as u16;
        c = c + 1;
    }
    count
}

/// Equality bitmask over 32-byte chunks: writes one 32-bit word per full
/// chunk into `out` and returns the number of words written.
pub fn eq_u8_masks32(data: &[u8], needle: u8, out: &mut Vec<u32>) -> (count: usize)
    requires
        old(out)@.len() >= data@.len() as int / 32,
    ensures
        count == data@.len() as int / 32,
        final(out)@.len() == old(out)@.len(),
        forall|c: int, k: u64|
            0 <= c < count && k < 32 ==> (#[trigger] word_bit(final(out)@[c] as u64, k)
                <==> data@[c * 32 + k as int] == needle),
        forall|c: int| count <= c < old(out)@.len() ==> final(out)@[c] == old(out)@[c],
{
    let n = data.len();
    let count = n / 32;
    proof {
        lemma_fundamental_div_mod(n as int, 32);
        lemma_mod_bound(n as int, 32);
    }
    let mut c: usize = 0;
    while c < count
        invariant
            n == data@.len(),
            count == n as int / 32,
            32 * count <= n,
            out@.len() == old(out)@.len(),
            count <= out@.len(),
            c <= count,
            forall|cc: int, k: u64|
                0 <= cc < c && k < 32 ==> (#[trigger] word_bit(out@[cc] as u64, k)
                    <==> data@[cc * 32 + k as int] == needle),
            forall|cc: int| c <= cc < out@.len() ==> out@[cc] == old(out)@[cc],
        decreases count - c,
    {
        proof {
            lemma_mul_inequality(c + 1, count as int, 32);
        }
        let base = c * 32;
        let m = eq_mask_chunk(data, base, 32, needle);
        proof {
            lemma_narrow_cast(m);
        }
        out[c] = m as u32;
        c = c + 1;
    }
    count
}

/// Equality bitmask over 64-byte chunks: writes one 64-bit word per full
/// chunk into `out` and returns the number of words written.
pub fn eq_u8_masks64(data: &[u8], needle: u8, out: &mut Vec<u64>) -> (count: usize)
    requires
        old(out)@.len() >= data@.len() as int / 64,
    ensures
        count == data@.len() as int / 64,
        final(out)@.len() == old(out)@.len(),
        forall|c: int, k: u64|
            0 <= c < count && k < 64 ==> (#[trigger] word_bit(final(out)@[c], k)
                <==> data@[c * 64 + k as int] == needle),
        forall|c: int| count <= c < old(out)@.len() ==> final(out)@[c] == old(out)@[c],
{
    let n = data.len();
    let count = n / 64;
    proof {
        lemma_fundamental_div_mod(n as int, 64);
        lemma_mod_bound(n as int, 64);
    }
    let mut c: usize = 0;
    while c < count
        invariant
            n == data@.len(),
            count == n as int / 64,
            64 * count <= n,
            out@.len() == old(out)@.len(),
            count <= out@.len(),
            c <= count,
            forall|cc: int, k: u64|
                0 <= cc < c && k < 64 ==> (#[trigger] word_bit(out@[cc], k)
                    <==> data@[cc * 64 + k as int] == needle),
            forall|cc: int| c <= cc < out@.len() ==> out@[cc] == old(out)@[cc],
        decreases count - c,
    {
        proof {
            lemma_mul_inequality(c + 1, count as int, 64);
        }
        let base = c * 64;
        let m = eq_mask_chunk(data, base, 64, needle);
        out[c] = m;
        c = c + 1;
    }
    count
}

} // verus!
