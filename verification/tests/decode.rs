//! Scratchpad decoding per device family, and family-code detection.

use onewire::ds18x20::decode_temperature;
use onewire::ds18x20::detect_18x20_devices;
use onewire::ds18x20::DS18x20Devices;

#[test]
fn detects_the_three_supported_families() {
    assert_eq!(detect_18x20_devices(0x10), Some(DS18x20Devices::DS18S20));
    assert_eq!(detect_18x20_devices(0x28), Some(DS18x20Devices::DS18B20));
    assert_eq!(detect_18x20_devices(0x22), Some(DS18x20Devices::DS1822));
    assert_eq!(detect_18x20_devices(0x00), None);
    assert_eq!(detect_18x20_devices(0x26), None);
}

#[test]
fn common_family_full_resolution_decode() {
    // Raw (LSB, MSB) = (0x91, 0x01) in 12-bit mode: 0x0191 = 401 sixteenths,
    // 25.0625 degrees Celsius.
    let sp = [0x91, 0x01, 0, 0, 0x60, 0, 0, 0, 0];
    assert_eq!(decode_temperature(0x28, &sp), 0x0191);
    assert_eq!(decode_temperature(0x28, &sp), 401);
}

#[test]
fn common_family_masks_undefined_low_bits() {
    let sp_9bit = [0x97, 0x01, 0, 0, 0x00, 0, 0, 0, 0];
    assert_eq!(decode_temperature(0x28, &sp_9bit), 0x0190);
    let sp_10bit = [0x97, 0x01, 0, 0, 0x20, 0, 0, 0, 0];
    assert_eq!(decode_temperature(0x28, &sp_10bit), 0x0194);
    let sp_11bit = [0x97, 0x01, 0, 0, 0x40, 0, 0, 0, 0];
    assert_eq!(decode_temperature(0x28, &sp_11bit), 0x0196);
    let sp_12bit = [0x97, 0x01, 0, 0, 0x60, 0, 0, 0, 0];
    assert_eq!(decode_temperature(0x28, &sp_12bit), 0x0197);
}

#[test]
fn common_family_negative_reading() {
    // -10.125 degrees Celsius = -162 sixteenths = 0xFF5E raw.
    let sp = [0x5E, 0xFF, 0, 0, 0x60, 0, 0, 0, 0];
    assert_eq!(decode_temperature(0x28, &sp), -162);
}

#[test]
fn legacy_family_applies_extension_formula() {
    // Raw (LSB, MSB) = (0xAA, 0x00), count-remaining 0x0C, count-per-degree
    // 0x10: the extension formula (raw & 0xFFF0) - 4 + 16 - remaining runs
    // instead of the plain left-shift.
    let sp = [0xAA, 0x00, 0, 0, 0, 0, 0x0C, 0x10, 0];
    assert_eq!(decode_temperature(0x10, &sp), (0xAA << 3) - 4 + 16 - 0x0C);
    // A different count-remaining shifts the result away from the plain
    // left-shift value.
    let sp_finer = [0xAA, 0x00, 0, 0, 0, 0, 0x04, 0x10, 0];
    assert_eq!(decode_temperature(0x10, &sp_finer), (0xAA << 3) + 8);
    assert_ne!(decode_temperature(0x10, &sp_finer), 0xAA << 3);
}

#[test]
fn legacy_family_without_count_per_degree_keeps_plain_shift() {
    let sp = [0xAA, 0x00, 0, 0, 0, 0, 0x0C, 0x11, 0];
    assert_eq!(decode_temperature(0x10, &sp), 0xAA << 3);
}

#[test]
fn legacy_family_negative_reading() {
    // Raw 0xFFCE = -50 half-degrees: -25.0 degrees Celsius = -400 sixteenths.
    let sp = [0xCE, 0xFF, 0, 0, 0, 0, 0, 0, 0];
    assert_eq!(decode_temperature(0x10, &sp), -400);
}
