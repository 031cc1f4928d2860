use auroragba::desktop::png::{adler32, crc32, encode_rgba};

#[test]
fn crc32_known_vector() {
    assert_eq!(crc32(b"123456789"), 0xCBF4_3926);
}

#[test]
fn adler32_known_vector() {
    assert_eq!(adler32(b"Wikipedia"), 0x11E6_0398);
}

#[test]
fn encodes_valid_png_header_and_size() {
    let px = vec![0u8; 2 * 2 * 4];
    let png = encode_rgba(2, 2, &px);
    assert_eq!(&png[..8], &[0x89, b'P', b'N', b'G', 0x0D, 0x0A, 0x1A, 0x0A]);
    assert_eq!(&png[8..12], &13u32.to_be_bytes());
    assert_eq!(&png[12..16], b"IHDR");
    assert_eq!(&png[16..20], &2u32.to_be_bytes());
    assert_eq!(&png[20..24], &2u32.to_be_bytes());
    assert_eq!(&png[png.len() - 8..png.len() - 4], b"IEND");
}

#[test]
fn empty_input_checksums() {
    assert_eq!(crc32(b""), 0);
    assert_eq!(adler32(b""), 1);
}

#[test]
fn one_pixel_png_has_its_exact_length() {
    // 8 signature + 25 IHDR + (12 + 2 + 5 + 5 + 4) IDAT + 12 IEND.
    let png = encode_rgba(1, 1, &[1, 2, 3, 4]);
    assert_eq!(png.len(), 8 + 25 + 28 + 12);
    // The raw row: filter byte then the pixel, stored after the block header.
    assert_eq!(&png[33 + 8..33 + 8 + 2], &[0x78, 0x01]);
    assert_eq!(&png[33 + 10..33 + 15], &[1, 5, 0, 0xFA, 0xFF]);
    assert_eq!(&png[33 + 15..33 + 20], &[0, 1, 2, 3, 4]);
}

#[test]
fn large_rows_split_into_stored_blocks() {
    let w = 20_000usize;
    let px = vec![7u8; w * 4];
    let png = encode_rgba(w, 1, &px);
    // 80001 raw bytes: two stored blocks (65535 + 14466).
    let idat_len = u32::from_be_bytes([png[33], png[34], png[35], png[36]]) as usize;
    assert_eq!(idat_len, 2 + 5 + 65535 + 5 + 14466 + 4);
}
