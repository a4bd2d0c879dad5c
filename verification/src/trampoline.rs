//! Call-boundary helpers: a no-op used to measure raw call overhead, a
//! trivial checked addition, and the parameter-marshalling helpers that
//! let a foreign caller confirm that arguments arrive with the correct
//! width and order.

use vstd::prelude::*;

verus! {

/// Does nothing; exists so a caller can measure the cost of the call
/// boundary itself.
pub fn noop() {
}

/// Adds two 32-bit values; the smallest possible round trip through the
/// call boundary.
pub fn add_u32(a: u32, b: u32) -> (r: u32)
    requires
        a + b <= u32::MAX,
    ensures
        r == a + b,
{
    a + b
}

/// One mixing step of the argument checksum: XOR with the product of the
/// value and an FNV-style multiplier, wrapped to 64 bits.
pub open spec fn mix_spec(h: u64, v: u64) -> u64 {
    h ^ v.wrapping_mul(0x100_0000_01b3)
}

fn mix(h: u64, v: u64) -> (r: u64)
    ensures
        r == mix_spec(h, v),
{
    h ^ v.wrapping_mul(0x100_0000_01b3)
}

/// The checksum over all arguments of the sanity helper: every argument
/// is mixed in turn into an FNV-style accumulator, the two float-bit
/// arguments with their sign bit cleared first.
pub open spec fn sanity_hash(
    ptr: usize,
    len: usize,
    val32: u32,
    val8: u8,
    val64: u64,
    f64_bits: u64,
    f32_bits: u32,
) -> u64 {
    let h0 = 0xcbf29ce484222325u64;
    let h1 = mix_spec(h0, ptr as u64);
    let h2 = mix_spec(h1, len as u64);
    let h3 = mix_spec(h2, val32 as u64);
    let h4 = mix_spec(h3, val8 as u64);
    let h5 = mix_spec(h4, val64);
    let h6 = mix_spec(h5, f64_bits & 0x7fff_ffff_ffff_ffffu64);
    mix_spec(h6, (f32_bits & 0x7fff_ffffu32) as u64)
}

/// Simple checksum over the arguments; a foreign caller compares it with
/// the same mix computed on its own side to verify that parameters cross
/// the boundary with the correct width and order.  The address argument
/// takes part only as a plain integer.
pub fn trampoline_sanity(
    ptr: usize,
    len: usize,
    val32: u32,
    val8: u8,
    val64: u64,
    f64_bits: u64,
    f32_bits: u32,
) -> (r: usize)
    ensures
        r == sanity_hash(ptr, len, val32, val8, val64, f64_bits, f32_bits) as usize,
{
    let mut h: u64 = 0xcbf29ce484222325;
    h = mix(h, ptr as u64);
    h = mix(h, len as u64);
    h = mix(h, val32 as u64);
    h = mix(h, val8 as u64);
    h = mix(h, val64);
    let fb64 = f64_bits & 0x7fff_ffff_ffff_ffff;
    let fb32 = (f32_bits & 0x7fff_ffff) as u64;
    h = mix(h, fb64);
    h = mix(h, fb32);
    #[verifier::truncate] (h as usize)
}

/// Echo record for detailed boundary debugging: one field per argument.
#[derive(Copy, Clone, Debug, PartialEq, Eq, Structural)]
pub struct Echo {
    pub ptr: usize,
    pub len: usize,
    pub v32: u32,
    pub v8: u8,
    pub v64: u64,
    pub f64bits: u64,
    pub f32bits: u32,
}

/// Bounces all parameters back to the caller, so a foreign test can
/// pinpoint which argument, if any, is mis-marshalled on the way in.
pub fn trampoline_echo(
    ptr: usize,
    len: usize,
    v32: u32,
    v8: u8,
    v64: u64,
    f64bits: u64,
    f32bits: u32,
    out: &mut Echo,
)
    ensures
        *final(out) == (Echo { ptr, len, v32, v8, v64, f64bits, f32bits }),
{
    *out = Echo { ptr, len, v32, v8, v64, f64bits, f32bits };
}

} // verus!
