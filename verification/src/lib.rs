//! Fixed-width, lane-parameterized byte-buffer kernels together with a
//! CRC32C accumulator that supports streaming updates and the algebraic
//! combination of two digests of adjacent buffers.
//!
//! Every kernel scans its input in full chunks of a caller-chosen width
//! followed by a scalar remainder pass; the two passes are proved to agree,
//! so the chosen width never changes a result.

pub mod ascii;
pub mod byte_sum;
pub mod checksum;
pub mod eq_masks;
pub mod lut;
pub mod tag;
pub mod trampoline;
