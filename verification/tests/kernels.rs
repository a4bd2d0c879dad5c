use simba_kernels::ascii::{is_ascii32, is_ascii64};
use simba_kernels::byte_sum::{sum_u8_16, sum_u8_32, sum_u8_64};
use simba_kernels::eq_masks::{eq_u8_masks16, eq_u8_masks32, eq_u8_masks64};
use simba_kernels::lut::{map_u8_lut16, map_u8_lut32, map_u8_lut64};

#[test]
fn test_sum_u8() {
    let data: Vec<u8> = (0u8..=255u8).collect();
    let expected: u32 = data.iter().map(|&b| b as u32).sum();
    let result = sum_u8_64(&data);
    assert_eq!(result, expected);
}

#[test]
fn test_sum_u8_wrap() {
    // Number of 0xFF bytes needed to overflow u32.
    let len: usize = 16_843_010; // ceil(2^32 / 255)
    let data = vec![0xFFu8; len];
    // Expected result is (255 * len) mod 2^32.
    let expected = ((255u64 * len as u64) & 0xFFFF_FFFF) as u32;
    let result = sum_u8_64(&data);
    assert_eq!(result, expected);
}

#[test]
fn test_sum_u8_various_lengths() {
    // Stress a variety of lengths to make sure chunk/remainder logic works.
    let mut lengths = vec![
        0usize,
        1,
        64 - 1,
        64,
        64 + 1,
        2 * 64 - 3,
        2 * 64,
        4096,
        10_000,
    ];
    lengths.push(123_456); // an arbitrary large size

    for len in lengths {
        // Create data pattern 0,1,2,3,... wrapping every 256.
        let data: Vec<u8> = (0..len as u32).map(|i| (i % 256) as u8).collect();

        let expected: u32 = data.iter().map(|&b| b as u32).sum();
        let got = sum_u8_64(&data);
        assert_eq!(got, expected, "failed at len={}", len);
    }
}

#[test]
fn test_sum_width_independence() {
    let data: Vec<u8> = (0..1021u32).map(|i| (i.wrapping_mul(37) % 256) as u8).collect();
    let s16 = sum_u8_16(&data);
    let s32 = sum_u8_32(&data);
    let s64 = sum_u8_64(&data);
    assert_eq!(s16, s32);
    assert_eq!(s32, s64);
}

#[test]
fn test_is_ascii() {
    let ascii = b"Hello, world!";
    let non_ascii = [0x48u8, 0x80u8, 0x49u8];

    assert_eq!(is_ascii32(ascii), 1);
    assert_eq!(is_ascii64(&non_ascii), 0);
    assert_eq!(is_ascii32(&[]), 1);
}

#[test]
fn test_map_u8_lut_basic() {
    // Mapping table: invert each byte (x -> 255 - x)
    let table: Vec<u8> = (0..=255u16).map(|b| 255u8.wrapping_sub(b as u8)).collect();
    let src: Vec<u8> = (0..=255u16).map(|b| b as u8).collect();
    let mut dst16 = vec![0u8; src.len()];
    let mut dst32 = vec![0u8; src.len()];
    let mut dst64 = vec![0u8; src.len()];
    map_u8_lut16(&src, &mut dst16, &table);
    map_u8_lut32(&src, &mut dst32, &table);
    map_u8_lut64(&src, &mut dst64, &table);
    let expected: Vec<u8> = src.iter().map(|&b| 255 - b).collect();
    assert_eq!(dst16, expected, "16-lane mapping failed");
    assert_eq!(dst32, expected, "32-lane mapping failed");
    assert_eq!(dst64, expected, "64-lane mapping failed");
}

#[test]
fn test_map_u8_lut_various_lengths() {
    let table: Vec<u8> = (0..=255u16).map(|b| (b as u8).wrapping_add(1)).collect(); // simple +1 mapping
    let lengths = [0usize, 1, 15, 16, 17, 31, 32, 33, 63, 64, 65, 255, 1023];
    for &len in &lengths {
        let src: Vec<u8> = (0..len as u32).map(|i| (i % 256) as u8).collect();
        let mut dst = vec![0u8; len];
        map_u8_lut64(&src, &mut dst, &table);
        for i in 0..len {
            assert_eq!(dst[i], src[i].wrapping_add(1), "idx {} len {}", i, len);
        }
    }
}

fn scalar_mask(chunk: &[u8], needle: u8) -> u128 {
    let mut m: u128 = 0;
    for (i, &b) in chunk.iter().enumerate() {
        if b == needle {
            m |= 1 << i;
        }
    }
    m
}

#[test]
fn test_eq_u8_masks_basic() {
    let data: Vec<u8> = (0..128u16).map(|i| (i % 256) as u8).collect();
    let mut out16 = vec![0u16; data.len() / 16];
    let mut out32 = vec![0u32; data.len() / 32];
    let mut out64 = vec![0u64; data.len() / 64];
    let c16 = eq_u8_masks16(&data, 3u8, &mut out16);
    let c32 = eq_u8_masks32(&data, 3u8, &mut out32);
    let c64 = eq_u8_masks64(&data, 3u8, &mut out64);
    assert_eq!(c16, out16.len());
    assert_eq!(c32, out32.len());
    assert_eq!(c64, out64.len());
    // validate
    for (i, &mask) in out16.iter().enumerate() {
        let start = i * 16;
        let chunk = &data[start..start + 16];
        assert_eq!(mask as u128, scalar_mask(chunk, 3));
    }
    for (i, &mask) in out32.iter().enumerate() {
        let start = i * 32;
        let chunk = &data[start..start + 32];
        assert_eq!(mask as u128, scalar_mask(chunk, 3));
    }
    for (i, &mask) in out64.iter().enumerate() {
        let start = i * 64;
        let chunk = &data[start..start + 64];
        assert_eq!(mask as u128, scalar_mask(chunk, 3));
    }
}

#[test]
fn test_eq_u8_masks_remainder_excluded() {
    // 70 bytes: one full 64-byte chunk, 6 remainder bytes full of needles.
    let mut data = vec![0u8; 70];
    for i in 64..70 {
        data[i] = 7;
    }
    data[3] = 7;
    let mut out = vec![0xAAAA_AAAA_AAAA_AAAAu64; 3];
    let count = eq_u8_masks64(&data, 7u8, &mut out);
    assert_eq!(count, 1);
    assert_eq!(out[0], 1u64 << 3);
    // Words beyond the written count keep their previous contents.
    assert_eq!(out[1], 0xAAAA_AAAA_AAAA_AAAAu64);
    assert_eq!(out[2], 0xAAAA_AAAA_AAAA_AAAAu64);
}
