use rand::{RngCore, SeedableRng};
use simba_kernels::checksum::{
    crc32_combine, crc32_combine_raw, crc32_update_32, crc32_update_32_raw, crc32_update_64,
    crc32_update_64_raw, crc32c_combine_go, crc32c_update,
};

/// Known-good CRC32C values computed via a reference implementation.
const CRC1: u32 = 0xa016d052; // checksum of a single byte 0x01
const CRC_HELLO: u32 = 0x9a71bb4c; // checksum of "hello"

#[test]
fn test_crc32c_single_byte() {
    let data = [0x01u8];
    let got = crc32c_update(0, &data);
    assert_eq!(
        got, CRC1,
        "crc32c_update mismatch for 0x01: {:08x} != {:08x}",
        got, CRC1
    );
}

#[test]
fn test_crc32c_hello() {
    let data = b"hello";
    let got = crc32c_update(0, data);
    assert_eq!(
        got, CRC_HELLO,
        "crc32c_update mismatch for \"hello\": {:08x} != {:08x}",
        got, CRC_HELLO
    );
}

#[test]
fn test_crc32c_reference_crc_crate() {
    let reference = crc::Crc::<u32>::new(&crc::CRC_32_ISCSI);
    let data1 = [0x01u8];
    let data2 = b"hello";
    let ref1 = reference.checksum(&data1);
    let ref2 = reference.checksum(data2);
    assert_eq!(ref1, CRC1);
    assert_eq!(ref2, CRC_HELLO);
}

#[test]
fn test_crc32c_direct_function() {
    let data1 = [0x01u8];
    let data2 = b"hello";
    assert_eq!(crc32c::crc32c(&data1), 0xa016d052);
    assert_eq!(crc32c::crc32c(data2), 0x9a71bb4c);
}

#[test]
fn test_crc32c_append_semantics() {
    let data = [0x01u8];
    let res = crc32c::crc32c_append(0, &data);
    assert_eq!(
        res, 0xa016d052,
        "crc32c_append with init 0 should give finalised CRC"
    );
}

#[test]
fn test_crc32c_50_ab() {
    let data = vec![0xABu8; 50];
    let expect = 0xd64d26c9u32;
    let got = crc32c_update(0, &data);
    assert_eq!(got, expect);
}

#[test]
fn test_crc32c_ffi_raw() {
    let data = [0x01u8];
    let got = crc32_update_32_raw(&data, 0);
    assert_eq!(got, 0xa016d052);
}

#[test]
fn test_crc32c_alias_function() {
    let data = [0x01u8];
    let got = crc32_update_32(&data, 0);
    assert_eq!(got, 0xa016d052);
}

#[test]
fn test_crc32c_update_64_entry_points() {
    let data = b"hello";
    assert_eq!(crc32_update_64_raw(data, 0), CRC_HELLO);
    assert_eq!(crc32_update_64(data, 0), CRC_HELLO);
}

#[test]
fn test_crc32c_update_empty_keeps_seed() {
    assert_eq!(crc32c_update(0, &[]), 0);
    assert_eq!(crc32c_update(0xdead_beef, &[]), 0xdead_beef);
}

#[test]
fn test_crc32c_combine() {
    let mut rng = rand::rngs::StdRng::seed_from_u64(42);
    let len1: usize = 100;
    let len2: usize = 200;
    let mut buf1 = vec![0u8; len1];
    let mut buf2 = vec![0u8; len2];
    rng.fill_bytes(&mut buf1);
    rng.fill_bytes(&mut buf2);

    let crc1 = crc32c_update(0, &buf1);
    let crc2 = crc32c_update(0, &buf2);
    let mut concat = Vec::from(buf1);
    concat.extend_from_slice(&buf2);
    let expected_concat = crc32c_update(0, &concat);
    let combined = crc32_combine_raw(crc1, crc2, len2);
    assert_eq!(combined, expected_concat, "combine mismatch");
}

#[test]
fn test_crc32c_combine_empty_sides() {
    let data = b"payload";
    let crc_data = crc32c_update(0, data);
    let crc_empty = crc32c_update(0, &[]);
    // Empty second buffer: the combine returns the first digest.
    assert_eq!(crc32_combine(crc_data, crc_empty, 0), crc_data);
    // Empty first buffer: the combine returns the second digest.
    assert_eq!(crc32_combine(crc_empty, crc_data, data.len()), crc_data);
}

#[test]
fn debug_combine_variants() {
    let buf1: &[u8] = b"hello";
    let buf2: &[u8] = b" world"; // len2=6
    let crc1 = crc32c_update(0, buf1);
    let crc2 = crc32c_update(0, buf2);
    let mut concat = Vec::from(buf1);
    concat.extend_from_slice(buf2);
    let expected = crc32c_update(0, &concat);

    let raw1 = !crc1;
    let raw2 = !crc2;

    let v1 = !crc32c::crc32c_combine(raw1, raw2, buf2.len());
    let v2 = crc32c::crc32c_combine(raw1, raw2, buf2.len());
    let v3 = !crc32c::crc32c_combine(crc1, crc2, buf2.len());
    let v4 = crc32c::crc32c_combine(crc1, crc2, buf2.len());
    println!(
        "expected {:08x} v1 {:08x} v2 {:08x} v3 {:08x} v4 {:08x}",
        expected, v1, v2, v3, v4
    );
}

#[test]
fn test_crc32c_combine_variants_randomised() {
    let trials: usize = 100;
    let mut rng = rand::rngs::StdRng::seed_from_u64(0x5eed);

    for _ in 0..trials {
        // Generate two random buffers of random length up to 8 KiB.
        let len1 = (rng.next_u32() % 8192) as usize;
        let len2 = (rng.next_u32() % 8192) as usize;
        let mut buf1 = vec![0u8; len1];
        let mut buf2 = vec![0u8; len2];
        rng.fill_bytes(&mut buf1);
        rng.fill_bytes(&mut buf2);

        let crc1 = crc32c_update(0, &buf1);
        let crc2 = crc32c_update(0, &buf2);

        // Ground-truth CRC of the concatenation.
        let mut concat = buf1.clone();
        concat.extend_from_slice(&buf2);
        let expected = crc32c_update(0, &concat);

        // The finalised combine must reproduce the one-pass digest.
        let chosen = crc32c_combine_go(crc1, crc2, len2);
        assert_eq!(chosen, expected, "crc32c_combine_go produced wrong value");

        // Sanity-check other flip combinations — none should match.
        let raw1 = !crc1;
        let raw2 = !crc2;
        let variants = [
            // A combine that flips before and after
            !crc32c::crc32c_combine(raw1, raw2, len2),
            // Mix-and-match variants
            crc32c::crc32c_combine(raw1, raw2, len2),
            !crc32c::crc32c_combine(crc1, crc2, len2),
        ];
        for (i, &v) in variants.iter().enumerate() {
            assert_ne!(v, expected, "variant {} unexpectedly matched", i + 1);
        }
    }
}
