//! All-ASCII predicate: true iff every byte of the buffer is below 0x80,
//! computed by a width-parameterized chunked scan whose per-chunk reduction
//! is the chunk's maximum byte value.

use vstd::prelude::*;

verus! {

/// Every byte of `s` is an ASCII code point, that is, below 0x80.
pub open spec fn all_ascii(s: Seq<u8>) -> bool {
    forall|i: int| 0 <= i < s.len() ==> s[i] < 0x80
}

/// Chunked-scan engine for the ASCII predicate: each full chunk of `w`
/// bytes is reduced to its maximum and tested at once; the remainder is
/// tested byte by byte.  The scan stops at the first violating chunk.
pub fn is_ascii_impl(data: &[u8], w: usize) -> (r: bool)
    requires
        1 <= w,
    ensures
        r == all_ascii(data@),
{
    let n = data.len();
    let mut base: usize = 0;
    while w <= n - base
        invariant
            1 <= w,
            n == data@.len(),
            base <= n,
            forall|i: int| 0 <= i < base ==> data@[i] < 0x80,
        decreases n - base,
    {
        let mut chunk_max: u8 = 0;
        let mut j: usize = 0;
        while j < w
            invariant
                1 <= w,
                n == data@.len(),
                base <= n,
                w <= n - base,
                j <= w,
                forall|k: int| 0 <= k < j ==> #[trigger] data@[base + k] <= chunk_max,
                j > 0 ==> exists|k: int| 0 <= k < j && #[trigger] data@[base + k] == chunk_max,
                j == 0 ==> chunk_max == 0,
            decreases w - j,
        {
            let b = data[base + j];
            if b > chunk_max {
                chunk_max = b;
            }
            j = j + 1;
        }
        if chunk_max >= 0x80 {
            proof {
                let k = choose|k: int| 0 <= k < w && #[trigger] data@[base + k] == chunk_max;
                assert(!(data@[base + k] < 0x80));
            }
            return false;
        }
        proof {
            assert forall|i: int| 0 <= i < base + w implies data@[i] < 0x80 by {
                if i >= base {
                    assert(data@[base + (i - base)] <= chunk_max);
                }
            }
        }
        base = base + w;
    }
    let mut i: usize = base;
    while i < n
        invariant
            n == data@.len(),
            i <= n,
            forall|k: int| 0 <= k < i ==> data@[k] < 0x80,
        decreases n - i,
    {
        if data[i] >= 0x80 {
            return false;
        }
        i = i + 1;
    }
    true
}

/// ASCII predicate over 16-byte chunks; 1 means all bytes are ASCII.
pub fn is_ascii16(data: &[u8]) -> (r: u8)
    ensures
        r == (if all_ascii(data@) { 1u8 } else { 0u8 }),
{
    if is_ascii_impl(data, 16) { 1 } else { 0 }
}

/// ASCII predicate over 32-byte chunks; 1 means all bytes are ASCII.
pub fn is_ascii32(data: &[u8]) -> (r: u8)
    ensures
        r == (if all_ascii(data@) { 1u8 } else { 0u8 }),
{
    if is_ascii_impl(data, 32) { 1 } else { 0 }
}

/// ASCII predicate over 64-byte chunks; 1 means all bytes are ASCII.
pub fn is_ascii64(data: &[u8]) -> (r: u8)
    ensures
        r == (if all_ascii(data@) { 1u8 } else { 0u8 }),
{
    if is_ascii_impl(data, 64) { 1 } else { 0 }
}

} // verus!
