//! The CRC-8 integrity check: known values, the trailing-CRC invariant, and
//! single-bit error detection.

use onewire::calculate_crc;

#[test]
fn crc_of_empty_input_is_zero() {
    assert_eq!(calculate_crc(&[]), 0);
}

#[test]
fn crc_of_single_one_byte() {
    // Hand-computed run of the reflected 0x8C register over one byte.
    assert_eq!(calculate_crc(&[0x01]), 0x5E);
}

#[test]
fn appending_the_crc_validates_any_payload() {
    let payloads: [[u8; 7]; 3] = [
        [0x10, 0x4B, 0x46, 0x7F, 0xFF, 0x02, 0x15],
        [0x00; 7],
        [0xFF, 0x01, 0x80, 0x55, 0xAA, 0x12, 0x34],
    ];
    for payload in payloads.iter() {
        let mut with_crc = [0u8; 8];
        with_crc[0..7].copy_from_slice(payload);
        with_crc[7] = calculate_crc(payload);
        assert_eq!(calculate_crc(&with_crc), 0);
    }
}

#[test]
fn flipping_any_single_bit_is_detected() {
    let payload: [u8; 7] = [0x28, 0x11, 0x22, 0x33, 0x44, 0x55, 0x66];
    let mut with_crc = [0u8; 8];
    with_crc[0..7].copy_from_slice(&payload);
    with_crc[7] = calculate_crc(&payload);
    assert_eq!(calculate_crc(&with_crc), 0);
    for byte in 0..8 {
        for bit in 0..8 {
            let mut corrupted = with_crc;
            corrupted[byte] ^= 1u8 << bit;
            assert_ne!(
                calculate_crc(&corrupted),
                0,
                "flip of byte {} bit {} went undetected",
                byte,
                bit
            );
        }
    }
}
