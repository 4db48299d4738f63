//! DS18x20 digital thermometer driver: the convert / read-scratchpad command
//! sequences, CRC validation, and the per-family decode of raw conversion
//! bytes into a signed 1/16 degree Celsius value.

use vstd::prelude::*;

use crate::OneWire;
use crate::PortErrors;
use crate::Rom;
use crate::calculate_crc;
use crate::crc8;

verus! {

/// The supported thermometer families.
#[derive(Debug, Clone, Copy, PartialEq, Eq, Structural)]
pub enum DS18x20Devices {
    DS18S20,
    DS18B20,
    DS1822,
}

/// Map a ROM family code to the thermometer family it identifies, if any.
pub fn detect_18x20_devices(factory_code: u8) -> (r: Option<DS18x20Devices>)
    ensures
        r == (if factory_code == 0x10 {
            Some(DS18x20Devices::DS18S20)
        } else if factory_code == 0x28 {
            Some(DS18x20Devices::DS18B20)
        } else if factory_code == 0x22 {
            Some(DS18x20Devices::DS1822)
        } else {
            None::<DS18x20Devices>
        }),
{
    match factory_code {
        0x10 => Some(DS18x20Devices::DS18S20),
        0x28 => Some(DS18x20Devices::DS18B20),
        0x22 => Some(DS18x20Devices::DS1822),
        _ => None,
    }
}

/// The raw little-endian 16-bit temperature held in scratchpad bytes 0 and 1.
pub open spec fn spec_raw_temperature(sp: Seq<u8>) -> u16 {
    (sp[0] as u16) | ((sp[1] as u16) << 8)
}

/// Reinterpret an unsigned 16-bit word as the signed value with the same
/// two's-complement bits.
pub open spec fn spec_u16_as_i16(v: u16) -> i16 {
    if v < 0x8000 {
        v as i16
    } else {
        (v - 0x10000) as i16
    }
}

/// Reduce an integer into the unsigned 16-bit range.
pub open spec fn spec_wrap_u16(x: int) -> u16 {
    (x % 0x10000) as u16
}

/// The mask that zeroes the undefined low bits of a common-family reading,
/// given scratchpad byte 4 (whose two configuration bits select the 9-, 10-,
/// 11- or 12-bit conversion mode).
pub open spec fn spec_resolution_mask(config: u8) -> u16 {
    if config & 0x60 == 0x00 {
        0xfff8
    } else if config & 0x60 == 0x20 {
        0xfffc
    } else if config & 0x60 == 0x40 {
        0xfffe
    } else {
        0xffff
    }
}

/// What a 9-byte scratchpad decodes to, in 1/16 degree Celsius units.
///
/// The legacy family (code 0x10) reports in 1/2 degree units, so its raw
/// value is aligned by a shift of 3; when byte 7 holds the expected
/// count-per-degree constant 0x10, the count-remaining field of byte 6
/// extends the reading to full 12-bit precision by
/// `(raw & 0xFFF0) - 4 + 16 - count_remaining`. Other families report in
/// 1/16 degree units directly, with the bits below the configured resolution
/// zeroed.
pub open spec fn spec_decode_temperature(family_code: u8, sp: Seq<u8>) -> i16 {
    let raw = spec_raw_temperature(sp);
    if family_code == 0x10 {
        let shifted = raw << 3;
        if sp[7] == 0x10 {
            spec_u16_as_i16(spec_wrap_u16((shifted & 0xfff0) + 12 - sp[6]))
        } else {
            spec_u16_as_i16(shifted)
        }
    } else {
        spec_u16_as_i16(raw & spec_resolution_mask(sp[4]))
    }
}

/// Reinterpret an unsigned 16-bit word as its two's-complement signed value.
fn u16_as_i16(v: u16) -> (r: i16)
    ensures
        r == spec_u16_as_i16(v),
{
    if v < 0x8000 {
        v as i16
    } else {
        ((v as i32) - 0x10000) as i16
    }
}

/// Decode a CRC-valid 9-byte scratchpad into a temperature in 1/16 degree
/// Celsius units, according to the device family in ROM byte 0.
pub fn decode_temperature(family_code: u8, scratchpad: &[u8]) -> (r: i16)
    requires
        scratchpad@.len() == 9,
    ensures
        r == spec_decode_temperature(family_code, scratchpad@),
{
    let mut rawtemp: u16 = scratchpad[0] as u16 | ((scratchpad[1] as u16) << 8);
    if family_code == 0x10 {
        // Legacy family: align the 1/2 degree reading to 1/16 degree units.
        rawtemp = rawtemp << 3;
        if scratchpad[7] == 0x10 {
            // The count-remaining field gives full 12-bit resolution.
            let masked: u16 = rawtemp & 0xfff0;
            let v: i32 = masked as i32 + 12 - scratchpad[6] as i32;
            proof {
                assert(rawtemp & 0xfff0 <= 0xfff0) by (bit_vector);
            }
            let w: u16 = if v < 0 {
                (v + 0x10000) as u16
            } else {
                v as u16
            };
            proof {
                assert(w == spec_wrap_u16(masked + 12 - scratchpad@[6]));
            }
            rawtemp = w;
        }
    } else {
        // The low bits are undefined below the configured resolution.
        let config = scratchpad[4] & 0x60;
        let mask: u16 = if config == 0x00 {
            0xfff8
        } else if config == 0x20 {
            0xfffc
        } else if config == 0x40 {
            0xfffe
        } else {
            0xffff
        };
        rawtemp = rawtemp & mask;
    }
    u16_as_i16(rawtemp)
}

/// The command sequences a DS18x20 thermometer understands, available on any
/// bus master.
pub trait DS18x20 {
    /// Start a temperature conversion on the addressed device. On success
    /// the caller must wait the returned number of milliseconds (the 12-bit
    /// worst case plus margin) before reading the result back.
    fn start_temperature_measurement(&mut self, rom: &Rom) -> (r: Result<u16, PortErrors>)
        ensures
            r matches Ok(ms) ==> ms == 800,
            r matches Err(e) ==> e == PortErrors::ShortDetected || e
                == PortErrors::NoPresencePulseDetect,
    ;

    /// Read the 9-byte scratchpad of the addressed device, validate its CRC,
    /// and decode the temperature in 1/16 degree Celsius units.
    ///
    /// Whatever the bus answered, a returned temperature is the decode of a
    /// scratchpad whose CRC validated.
    fn read_temperature_measurement_result(&mut self, rom: &Rom) -> (r: Result<i16, PortErrors>)
        ensures
            r matches Err(e) ==> e == PortErrors::ShortDetected || e
                == PortErrors::NoPresencePulseDetect || e == PortErrors::CRCMismatch,
            r matches Ok(t) ==> exists|sp: Seq<u8>|
                {
                    &&& sp.len() == 9
                    &&& #[trigger] crc8(sp) == 0
                    &&& t == spec_decode_temperature(rom@[0], sp)
                },
    ;
}

impl<T: OneWire> DS18x20 for T {
    fn start_temperature_measurement(&mut self, rom: &Rom) -> (r: Result<u16, PortErrors>) {
        match self.reset() {
            Err(error) => {
                return Err(error);
            },
            Ok(()) => {},
        }
        self.select(rom);
        // Start the conversion.
        self.send_byte(0x44);
        Ok(800)
    }

    fn read_temperature_measurement_result(&mut self, rom: &Rom) -> (r: Result<i16, PortErrors>) {
        match self.reset() {
            Err(error) => {
                return Err(error);
            },
            Ok(()) => {},
        }
        self.select(rom);
        // Read the scratchpad.
        self.send_byte(0xbe);
        let mut scratchpad: Vec<u8> = vec![0u8, 0u8, 0u8, 0u8, 0u8, 0u8, 0u8, 0u8, 0u8];
        self.request_many(&mut scratchpad);
        if calculate_crc(scratchpad.as_slice()) == 0 {
            let t = decode_temperature(rom[0], scratchpad.as_slice());
            proof {
                let sp = scratchpad@;
                assert(sp.len() == 9 && crc8(sp) == 0 && t == spec_decode_temperature(
                    rom@[0],
                    sp,
                ));
            }
            Ok(t)
        } else {
            Err(PortErrors::CRCMismatch)
        }
    }
}

} // verus!
