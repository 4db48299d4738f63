//! Software-driven 1-Wire bus master: bit-level timing engine, Dallas/Maxim
//! CRC-8 integrity check, and the multi-device ROM-search algorithm.
//!
//! The physical line and the microsecond delay source are capabilities the
//! caller supplies through the [`InputOutputPin`] and [`DelayUs`] traits; the
//! protocol engine itself is ordinary verified code on top of them.

use vstd::prelude::*;

pub mod ds18x20;
pub mod temperature;

verus! {

/// Errors a bus transaction can report.
#[derive(Debug, Clone, Copy, PartialEq, Eq, Structural)]
pub enum PortErrors {
    /// The line was never observed high before a reset: the pull-up is
    /// missing or a device is stuck driving low.
    ShortDetected,
    /// The reset pulse was issued but no device answered with a presence
    /// pulse.
    NoPresencePulseDetect,
    /// During a ROM search both polarity bits read 1: the bus stopped
    /// answering mid-walk.
    NoDevices,
    /// A received payload's trailing CRC does not validate.
    CRCMismatch,
}

/// A device's fixed 8-byte identifier: family code, 48-bit serial, CRC.
pub type Rom = [u8; 8];

/// One step of the Dallas/Maxim CRC-8: consume a single input bit.
///
/// The feedback condition is `(crc ^ bit) & 1`; on feedback the register is
/// shifted right and XORed with the reflected polynomial 0x8C.
pub open spec fn crc8_bit(crc: u8, bit: bool) -> u8 {
    if ((crc & 1) == 1) != bit {
        (crc >> 1) ^ 0x8c
    } else {
        crc >> 1
    }
}

/// Consume the `n` lowest bits of `byte`, least significant first.
pub open spec fn crc8_bits(crc: u8, byte: u8, n: nat) -> u8
    decreases n,
{
    if n == 0 {
        crc
    } else {
        crc8_bits(crc8_bit(crc, byte & 1 == 1), byte >> 1, (n - 1) as nat)
    }
}

/// Consume one whole byte, least significant bit first.
pub open spec fn crc8_byte(crc: u8, byte: u8) -> u8 {
    crc8_bits(crc, byte, 8)
}

/// Run the CRC-8 register over a byte sequence starting from state `crc`.
pub open spec fn crc8_from(crc: u8, s: Seq<u8>) -> u8
    decreases s.len(),
{
    if s.len() == 0 {
        crc
    } else {
        crc8_from(crc8_byte(crc, s[0]), s.subrange(1, s.len() as int))
    }
}

/// The Dallas/Maxim CRC-8 of a byte sequence (initial register 0).
pub open spec fn crc8(s: Seq<u8>) -> u8 {
    crc8_from(0, s)
}

/// Running the register over `s + t` is running it over `s`, then over `t`.
proof fn lemma_crc8_from_append(c: u8, s: Seq<u8>, t: Seq<u8>)
    ensures
        crc8_from(c, s + t) == crc8_from(crc8_from(c, s), t),
    decreases s.len(),
{
    if s.len() == 0 {
        assert(s + t =~= t);
    } else {
        assert((s + t)[0] == s[0]);
        assert((s + t).subrange(1, (s + t).len() as int) =~= s.subrange(1, s.len() as int) + t);
        lemma_crc8_from_append(crc8_byte(c, s[0]), s.subrange(1, s.len() as int), t);
    }
}

/// Feeding the register its own state consumes it bit for bit: after `n`
/// steps only the top `8 - n` bits remain.
proof fn lemma_crc8_bits_self(c: u8, n: u8)
    requires
        n <= 8,
    ensures
        crc8_bits(c, c, n as nat) == c >> n,
    decreases n,
{
    if n == 0 {
        assert(c >> 0u8 == c) by (bit_vector);
    } else {
        lemma_crc8_bits_self(c >> 1, (n - 1) as u8);
        assert(1 <= n <= 8 ==> (c >> 1) >> ((n - 1) as u8) == c >> n) by (bit_vector);
    }
}

/// Appending a payload's own CRC-8 as a trailing byte drives the register to
/// zero: this is how a received ROM or scratchpad is validated.
pub proof fn lemma_crc8_append_zero(s: Seq<u8>)
    ensures
        crc8(s.push(crc8(s))) == 0,
{
    let c = crc8(s);
    assert(s.push(c) =~= s + seq![c]);
    lemma_crc8_from_append(0, s, seq![c]);
    assert(seq![c].subrange(1, 1) =~= Seq::<u8>::empty());
    assert(crc8_from(c, seq![c]) == crc8_from(crc8_byte(c, seq![c][0]), seq![c].subrange(1, 1)));
    assert(crc8_from(crc8_byte(c, c), Seq::<u8>::empty()) == crc8_byte(c, c));
    lemma_crc8_bits_self(c, 8);
    assert(c >> 8u8 == 0) by (bit_vector);
}

/// One register step distributes over XOR of its state and input bit.
proof fn lemma_crc8_bit_linear(c1: u8, c2: u8, b1: bool, b2: bool)
    ensures
        crc8_bit(c1 ^ c2, b1 != b2) == crc8_bit(c1, b1) ^ crc8_bit(c2, b2),
{
    assert(((c1 ^ c2) & 1 == 1) == ((c1 & 1 == 1) != (c2 & 1 == 1))) by (bit_vector);
    assert((c1 ^ c2) >> 1 == (c1 >> 1) ^ (c2 >> 1)) by (bit_vector);
    assert(((c1 >> 1) ^ 0x8c) ^ ((c2 >> 1) ^ 0x8c) == (c1 >> 1) ^ (c2 >> 1)) by (bit_vector);
    assert(((c1 >> 1) ^ 0x8c) ^ (c2 >> 1) == ((c1 >> 1) ^ (c2 >> 1)) ^ 0x8c) by (bit_vector);
    assert((c1 >> 1) ^ ((c2 >> 1) ^ 0x8c) == ((c1 >> 1) ^ (c2 >> 1)) ^ 0x8c) by (bit_vector);
}

/// `n` register steps distribute over XOR of state and input byte.
proof fn lemma_crc8_bits_linear(c1: u8, c2: u8, d1: u8, d2: u8, n: nat)
    ensures
        crc8_bits(c1 ^ c2, d1 ^ d2, n) == crc8_bits(c1, d1, n) ^ crc8_bits(c2, d2, n),
    decreases n,
{
    if n != 0 {
        assert(((d1 ^ d2) & 1 == 1) == ((d1 & 1 == 1) != (d2 & 1 == 1))) by (bit_vector);
        assert((d1 ^ d2) >> 1 == (d1 >> 1) ^ (d2 >> 1)) by (bit_vector);
        lemma_crc8_bit_linear(c1, c2, d1 & 1 == 1, d2 & 1 == 1);
        lemma_crc8_bits_linear(
            crc8_bit(c1, d1 & 1 == 1),
            crc8_bit(c2, d2 & 1 == 1),
            d1 >> 1,
            d2 >> 1,
            (n - 1) as nat,
        );
    }
}

/// The byte-wise XOR of two equal-length sequences.
pub open spec fn xor_bytes(s1: Seq<u8>, s2: Seq<u8>) -> Seq<u8> {
    Seq::new(s1.len(), |i: int| s1[i] ^ s2[i])
}

/// The whole register run distributes over byte-wise XOR: the CRC-8 is a
/// linear code.
proof fn lemma_crc8_from_linear(c1: u8, c2: u8, s1: Seq<u8>, s2: Seq<u8>)
    requires
        s1.len() == s2.len(),
    ensures
        crc8_from(c1 ^ c2, xor_bytes(s1, s2)) == crc8_from(c1, s1) ^ crc8_from(c2, s2),
    decreases s1.len(),
{
    if s1.len() != 0 {
        assert(xor_bytes(s1, s2)[0] == s1[0] ^ s2[0]);
        assert(xor_bytes(s1, s2).subrange(1, s1.len() as int) =~= xor_bytes(
            s1.subrange(1, s1.len() as int),
            s2.subrange(1, s2.len() as int),
        ));
        lemma_crc8_bits_linear(c1, c2, s1[0], s2[0], 8);
        lemma_crc8_from_linear(
            crc8_byte(c1, s1[0]),
            crc8_byte(c2, s2[0]),
            s1.subrange(1, s1.len() as int),
            s2.subrange(1, s2.len() as int),
        );
    }
}

/// From the zero state, zero input bits leave the register at zero.
proof fn lemma_crc8_bits_zero(n: nat)
    ensures
        crc8_bits(0, 0, n) == 0,
    decreases n,
{
    if n != 0 {
        assert(0u8 & 1 == 0) by (bit_vector);
        assert(0u8 >> 1 == 0) by (bit_vector);
        lemma_crc8_bits_zero((n - 1) as nat);
    }
}

/// A nonzero state never returns to zero on a zero input byte: each step
/// either keeps a nonzero shifted remainder or folds in the polynomial.
proof fn lemma_crc8_bits_zero_byte_nonzero(c: u8, n: nat)
    requires
        c != 0,
    ensures
        crc8_bits(c, 0, n) != 0,
    decreases n,
{
    if n != 0 {
        assert(0u8 & 1 == 0) by (bit_vector);
        assert(0u8 >> 1 == 0) by (bit_vector);
        assert(c & 1 == 1 ==> ((c >> 1) ^ 0x8c) != 0) by (bit_vector);
        assert(c != 0 && c & 1 != 1 ==> (c >> 1) != 0) by (bit_vector);
        lemma_crc8_bits_zero_byte_nonzero(crc8_bit(c, false), (n - 1) as nat);
    }
}

/// A run of zero bytes from the zero state stays at zero.
proof fn lemma_crc8_from_zeros(s: Seq<u8>)
    requires
        forall|k: int| 0 <= k < s.len() ==> s[k] == 0u8,
    ensures
        crc8_from(0, s) == 0,
    decreases s.len(),
{
    if s.len() != 0 {
        lemma_crc8_bits_zero(8);
        lemma_crc8_from_zeros(s.subrange(1, s.len() as int));
    }
}

/// A run of zero bytes never clears a nonzero state.
proof fn lemma_crc8_from_zeros_nonzero(c: u8, s: Seq<u8>)
    requires
        c != 0,
        forall|k: int| 0 <= k < s.len() ==> s[k] == 0u8,
    ensures
        crc8_from(c, s) != 0,
    decreases s.len(),
{
    if s.len() != 0 {
        lemma_crc8_bits_zero_byte_nonzero(c, 8);
        lemma_crc8_from_zeros_nonzero(crc8_byte(c, 0), s.subrange(1, s.len() as int));
    }
}

/// From the zero state, any nonzero input byte leaves the register nonzero:
/// the polynomial has degree 8 with a nonzero constant term, so the register
/// run is injective on one byte.
proof fn lemma_crc8_byte_nonzero(b: u8)
    requires
        b != 0,
    ensures
        crc8_byte(0, b) != 0,
{
    let b1 = b >> 1;
    let b2 = b1 >> 1;
    let b3 = b2 >> 1;
    let b4 = b3 >> 1;
    let b5 = b4 >> 1;
    let b6 = b5 >> 1;
    let b7 = b6 >> 1;
    let s1 = crc8_bit(0, b & 1 == 1);
    let s2 = crc8_bit(s1, b1 & 1 == 1);
    let s3 = crc8_bit(s2, b2 & 1 == 1);
    let s4 = crc8_bit(s3, b3 & 1 == 1);
    let s5 = crc8_bit(s4, b4 & 1 == 1);
    let s6 = crc8_bit(s5, b5 & 1 == 1);
    let s7 = crc8_bit(s6, b6 & 1 == 1);
    let s8 = crc8_bit(s7, b7 & 1 == 1);
    reveal_with_fuel(crc8_bits, 9);
    assert(crc8_byte(0, b) == s8);
    assert(s8 != 0) by (bit_vector)
        requires
            b != 0,
            b1 == b >> 1,
            b2 == b1 >> 1,
            b3 == b2 >> 1,
            b4 == b3 >> 1,
            b5 == b4 >> 1,
            b6 == b5 >> 1,
            b7 == b6 >> 1,
            s1 == (if ((0u8 & 1) == 1) != (b & 1 == 1) {
                (0u8 >> 1) ^ 0x8c
            } else {
                0u8 >> 1
            }),
            s2 == (if ((s1 & 1) == 1) != (b1 & 1 == 1) {
                (s1 >> 1) ^ 0x8c
            } else {
                s1 >> 1
            }),
            s3 == (if ((s2 & 1) == 1) != (b2 & 1 == 1) {
                (s2 >> 1) ^ 0x8c
            } else {
                s2 >> 1
            }),
            s4 == (if ((s3 & 1) == 1) != (b3 & 1 == 1) {
                (s3 >> 1) ^ 0x8c
            } else {
                s3 >> 1
            }),
            s5 == (if ((s4 & 1) == 1) != (b4 & 1 == 1) {
                (s4 >> 1) ^ 0x8c
            } else {
                s4 >> 1
            }),
            s6 == (if ((s5 & 1) == 1) != (b5 & 1 == 1) {
                (s5 >> 1) ^ 0x8c
            } else {
                s5 >> 1
            }),
            s7 == (if ((s6 & 1) == 1) != (b6 & 1 == 1) {
                (s6 >> 1) ^ 0x8c
            } else {
                s6 >> 1
            }),
            s8 == (if ((s7 & 1) == 1) != (b7 & 1 == 1) {
                (s7 >> 1) ^ 0x8c
            } else {
                s7 >> 1
            }),
    ;
}

/// Single-bit error detection: flipping any one bit of a payload whose CRC-8
/// validates (such as a ROM with its trailing CRC byte) makes the CRC-8
/// nonzero.
pub proof fn lemma_crc8_single_bit_error(s: Seq<u8>, i: int, j: u8)
    requires
        crc8(s) == 0,
        0 <= i < s.len(),
        j < 8,
    ensures
        crc8(s.update(i, s[i] ^ (1u8 << j))) != 0,
{
    let m = 1u8 << j;
    let delta = Seq::new(s.len(), |k: int| if k == i { m } else { 0u8 });
    assert(forall|x: u8| #![auto] x ^ 0u8 == x) by (bit_vector);
    assert(s.update(i, s[i] ^ m) =~= xor_bytes(s, delta));
    assert(0u8 ^ 0u8 == 0u8) by (bit_vector);
    lemma_crc8_from_linear(0, 0, s, delta);
    // The CRC of the one-bit difference pattern: zero bytes keep the zero
    // state, the flipped byte leaves it nonzero, and the remaining zero
    // bytes keep it nonzero.
    let prefix = delta.subrange(0, i);
    let rest = delta.subrange(i, delta.len() as int);
    assert(delta =~= prefix + rest);
    lemma_crc8_from_append(0, prefix, rest);
    lemma_crc8_from_zeros(prefix);
    assert(rest[0] == m);
    assert(rest.subrange(1, rest.len() as int) =~= delta.subrange(i + 1, delta.len() as int));
    assert(m != 0) by (bit_vector)
        requires
            m == 1u8 << j && j < 8,
    ;
    lemma_crc8_byte_nonzero(m);
    lemma_crc8_from_zeros_nonzero(crc8_byte(0, m), rest.subrange(1, rest.len() as int));
    assert(forall|y: u8| #![auto] 0u8 ^ y == y) by (bit_vector);
}

/// Capability contract for the single bidirectional, open-drain bus line.
///
/// `set_high` releases the line (the external pull-up brings it high);
/// `set_low` actively drives it low. What a read returns is decided by the
/// electrical state of the bus, so nothing is promised of the results.
pub trait InputOutputPin {
    fn is_high(&mut self) -> bool;

    fn is_low(&mut self) -> bool;

    fn set_high(&mut self);

    fn set_low(&mut self);
}

/// Capability contract for the microsecond delay provider.
pub trait DelayUs {
    fn delay_us(&mut self, us: u16);
}

/// A scoped guard for the microsecond-scale critical sections of the bit
/// timing engine: held across a timing-sensitive pin toggle or sample, and
/// released on every exit path. On a hosted platform without real interrupts
/// it degrades to a no-op.
pub struct CriticalSection {}

impl CriticalSection {
    pub fn enter() -> (r: CriticalSection) {
        CriticalSection {  }
    }

    pub fn exit(self) {
    }
}

/// Cross-call state of the ROM search: the discrepancy bookkeeping and the
/// working ROM buffer, owned by the caller and threaded through repeated
/// search steps.
pub struct RomIterator {
    last_device_flag: bool,
    last_discrepancy: i32,
    last_family_discrepancy: i32,
    rom: Rom,
}

impl RomIterator {
    /// True once the lexicographically last ROM has been returned.
    pub closed spec fn is_done(&self) -> bool {
        self.last_device_flag
    }

    /// Bit position (1-indexed) of the most recent unresolved branch taken
    /// toward 0; 0 when there is none.
    pub closed spec fn discrepancy(&self) -> int {
        self.last_discrepancy as int
    }

    /// The same position restricted to the first 8 bits (the family code).
    pub closed spec fn family_discrepancy(&self) -> int {
        self.last_family_discrepancy as int
    }

    /// The ROM under construction or most recently returned.
    pub closed spec fn candidate(&self) -> Seq<u8> {
        self.rom@
    }

    /// The discrepancy positions stay inside the 64-bit ROM, and the family
    /// discrepancy inside its first 8 bits.
    pub open spec fn wf(&self) -> bool {
        &&& 0 <= self.discrepancy() <= 64
        &&& 0 <= self.family_discrepancy() <= 8
    }

    /// Set up the search to find devices of type `family_code` first.
    /// A family code of 0 matches every device.
    pub fn new(family_code: u8) -> (r: RomIterator)
        ensures
            r.wf(),
            !r.is_done(),
            r.discrepancy() == 0,
            r.family_discrepancy() == 0,
            r.candidate().len() == 8,
            r.candidate()[0] == family_code,
            forall|i: int| 1 <= i < 8 ==> r.candidate()[i] == 0u8,
    {
        RomIterator {
            last_discrepancy: 0,
            last_device_flag: false,
            last_family_discrepancy: 0,
            rom: [family_code, 0u8, 0u8, 0u8, 0u8, 0u8, 0u8, 0u8],
        }
    }

    /// Reset the counters so the next search step starts a fresh enumeration,
    /// seeded with `family_code`.
    pub fn reset(&mut self, family_code: u8)
        ensures
            final(self).wf(),
            !final(self).is_done(),
            final(self).discrepancy() == 0,
            final(self).family_discrepancy() == 0,
            final(self).candidate() == old(self).candidate().update(0, family_code),
    {
        self.last_discrepancy = 0;
        self.last_device_flag = false;
        self.last_family_discrepancy = 0;
        self.rom[0] = family_code;
    }
}

/// The search's branch choice at a genuine collision (both polarity bits
/// read 0): before the last discrepancy, replay the branch stored in the
/// working ROM; exactly at it, explore the deferred 1-branch; past it, take
/// the 0-branch.
pub open spec fn spec_resolve_collision(
    id_bit_number: i32,
    last_discrepancy: i32,
    rom_bit_set: bool,
) -> bool {
    if id_bit_number < last_discrepancy {
        rom_bit_set
    } else {
        id_bit_number == last_discrepancy
    }
}

/// Resolve a search collision at 1-indexed bit position `id_bit_number`,
/// given the iterator's last discrepancy and the bit stored in the working
/// ROM at this position. Choosing 0 here is what the caller records as a new
/// discrepancy candidate; reordering that bookkeeping against this choice
/// breaks the search's convergence.
pub fn resolve_collision(id_bit_number: i32, last_discrepancy: i32, rom_bit_set: bool) -> (r: bool)
    ensures
        r == spec_resolve_collision(id_bit_number, last_discrepancy, rom_bit_set),
{
    if id_bit_number < last_discrepancy {
        rom_bit_set
    } else {
        id_bit_number == last_discrepancy
    }
}

/// The byte- and search-level operations of a 1-Wire bus master.
///
/// What the bus answers is outside the program, so the contracts state what
/// holds of every outcome: which errors each operation can report, and that
/// a ROM handed out by the search carries a valid CRC.
pub trait OneWire {
    /// Bus reset and presence detection.
    fn reset(&mut self) -> (r: Result<(), PortErrors>)
        ensures
            r matches Err(e) ==> e == PortErrors::ShortDetected || e
                == PortErrors::NoPresencePulseDetect,
    ;

    /// Send one byte, least significant bit first.
    fn send_byte(&mut self, data: u8);

    /// Receive one byte, least significant bit first.
    fn request_byte(&mut self) -> u8;

    /// Send a run of bytes in order.
    fn send_many(&mut self, data: &[u8]);

    /// Fill the buffer with bytes coming in on the bus.
    fn request_many(&mut self, buffer: &mut Vec<u8>)
        ensures
            final(buffer)@.len() == old(buffer)@.len(),
    ;

    /// Address one device: the match-ROM command followed by its ROM.
    fn select(&mut self, rom: &Rom);

    /// Address every device at once: the skip-ROM command.
    fn skip(&mut self);

    /// One step of the ROM search: discover the next device on the bus, or
    /// report that the enumeration is exhausted.
    ///
    /// `normal_search_mode` selects the normal search command; otherwise the
    /// alarm/conditional search is issued.
    fn iterate_next(&mut self, normal_search_mode: bool, it: &mut RomIterator) -> (r: Result<
        Option<Rom>,
        PortErrors,
    >)
        requires
            old(it).wf(),
        ensures
            final(it).wf(),
            old(it).is_done() ==> r == Ok::<Option<Rom>, PortErrors>(None) && *final(it) == *old(
                it,
            ),
            r matches Ok(Some(rom)) ==> {
                &&& !old(it).is_done()
                &&& crc8(rom@) == 0
                &&& rom@ == final(it).candidate()
                &&& final(it).is_done() == (final(it).discrepancy() == 0)
            },
            r matches Ok(None) ==> old(it).is_done(),
            r matches Err(e) && (e == PortErrors::ShortDetected || e
                == PortErrors::NoPresencePulseDetect) ==> *final(it) == *old(it),
    ;
}

/// The bit timing engine: drives the line through a caller-supplied pin and
/// delay capability. An external pull-up resistor is needed on the pin.
pub struct OneWirePort<IOPIN, DELAY> where IOPIN: InputOutputPin, DELAY: DelayUs {
    io: IOPIN,
    delay: DELAY,
}

/// Microseconds subtracted from each nominal window to compensate the fixed
/// overhead of toggling the pin and reading its state.
pub const DELAY_CALIBRATION: u16 = 3;

/// How many times, one microsecond apart, a reset polls for the line to be
/// observed high before giving up with `ShortDetected`. A safety margin, not
/// a protocol constant.
pub const RESET_RETRY_BUDGET: u16 = 128;

impl<IOPIN, DELAY> OneWirePort<IOPIN, DELAY> where IOPIN: InputOutputPin, DELAY: DelayUs {
    /// Take ownership of the line and the delay provider; the line starts
    /// released (high).
    pub fn new(mut io: IOPIN, delay: DELAY) -> (r: Self) {
        io.set_high();
        OneWirePort { io, delay }
    }

    /// Send a single bit: a short low pulse for 1, a long one for 0, padding
    /// the remainder of the 80 microsecond slot either way.
    fn send_bit(&mut self, data: bool) {
        if data {
            let cs = CriticalSection::enter();
            self.io.set_low();
            self.delay.delay_us(9 - DELAY_CALIBRATION);
            self.io.set_high();
            cs.exit();
            self.delay.delay_us(80 - 9 - DELAY_CALIBRATION);
        } else {
            let cs = CriticalSection::enter();
            self.io.set_low();
            self.delay.delay_us(60 - DELAY_CALIBRATION);
            self.io.set_high();
            cs.exit();
            self.delay.delay_us(80 - 60 - DELAY_CALIBRATION);
        }
    }

    /// Read a single bit: initiate the slot with a short low pulse, release,
    /// then sample the line while a responding device may hold it low.
    fn request_bit(&mut self) -> (r: bool) {
        let cs = CriticalSection::enter();
        self.io.set_low();
        self.delay.delay_us(9 - DELAY_CALIBRATION);
        self.io.set_high();
        self.delay.delay_us(9 - DELAY_CALIBRATION);
        let result = self.io.is_high();
        cs.exit();
        self.delay.delay_us(80 - 9 - 9 - DELAY_CALIBRATION);
        result
    }
}

impl<IOPIN, DELAY> OneWire for OneWirePort<IOPIN, DELAY> where
    IOPIN: InputOutputPin,
    DELAY: DelayUs,
 {
    fn reset(&mut self) -> (r: Result<(), PortErrors>) {
        // Poll until the line is observed high, within a bounded retry
        // budget; a line that never rises means a missing pull-up or a stuck
        // device.
        let mut retry: u16 = RESET_RETRY_BUDGET;
        loop
            invariant
                1 <= retry <= RESET_RETRY_BUDGET,
            decreases retry,
        {
            retry = retry - 1;
            if retry == 0 {
                return Err(PortErrors::ShortDetected);
            }
            if self.io.is_high() {
                break ;
            }
            self.delay.delay_us(1);
        }
        // The long low reset pulse, then release and sample inside the
        // presence window.
        self.io.set_low();
        self.delay.delay_us(480 - DELAY_CALIBRATION);
        let cs = CriticalSection::enter();
        self.io.set_high();
        self.delay.delay_us(72 - DELAY_CALIBRATION);
        let device_present = self.io.is_low();
        cs.exit();
        // Recovery window before the frame ends.
        self.delay.delay_us(320 - DELAY_CALIBRATION);
        if device_present {
            Ok(())
        } else {
            Err(PortErrors::NoPresencePulseDetect)
        }
    }

    fn send_byte(&mut self, data: u8) {
        let mut i: usize = 0;
        while i < 8
            invariant
                i <= 8,
            decreases 8 - i,
        {
            self.send_bit(data & (1u8 << i) != 0);
            i = i + 1;
        }
    }

    fn request_byte(&mut self) -> (r: u8) {
        let mut result: u8 = 0;
        let mut i: usize = 0;
        while i < 8
            invariant
                i <= 8,
            decreases 8 - i,
        {
            if self.request_bit() {
                result = result | (1u8 << i);
            }
            i = i + 1;
        }
        result
    }

    fn send_many(&mut self, data: &[u8]) {
        let mut i: usize = 0;
        while i < data.len()
            invariant
                i <= data@.len(),
            decreases data@.len() - i,
        {
            self.send_byte(data[i]);
            i = i + 1;
        }
    }

    fn request_many(&mut self, buffer: &mut Vec<u8>) {
        let mut i: usize = 0;
        while i < buffer.len()
            invariant
                i <= buffer@.len(),
                buffer@.len() == old(buffer)@.len(),
            decreases buffer@.len() - i,
        {
            let b = self.request_byte();
            buffer[i] = b;
            i = i + 1;
        }
    }

    fn select(&mut self, rom: &Rom) {
        self.send_byte(0x55);
        self.send_many(rom.as_slice());
    }

    fn skip(&mut self) {
        self.send_byte(0xcc);
    }

    fn iterate_next(&mut self, normal_search_mode: bool, it: &mut RomIterator) -> (r: Result<
        Option<Rom>,
        PortErrors,
    >) {
        if it.last_device_flag {
            // Terminal: the lexicographically last ROM was already returned;
            // report exhaustion without touching the bus.
            return Ok(None);
        }
        match self.reset() {
            Err(error) => {
                return Err(error);
            },
            Ok(()) => {},
        }
        if normal_search_mode {
            self.send_byte(0xf0);
        } else {
            self.send_byte(0xec);
        }
        let mut id_bit_number: i32 = 1;
        let mut id_byte_number: usize = 0;
        let mut id_byte_mask: u8 = 1;
        let mut last_zero: i32 = 0;
        let ghost mut bit_in_byte: u8 = 0;
        proof {
            assert((1u8 << 0u8) == 1u8) by (bit_vector);
        }
        loop
            invariant
                old(it).wf(),
                !old(it).last_device_flag,
                it.last_device_flag == false,
                it.last_discrepancy == old(it).last_discrepancy,
                0 <= it.last_family_discrepancy <= 8,
                id_byte_number < 8,
                bit_in_byte < 8,
                id_byte_mask == 1u8 << bit_in_byte,
                id_bit_number as int == 8 * (id_byte_number as int) + (bit_in_byte as int) + 1,
                0 <= last_zero <= 64,
                last_zero < id_bit_number,
            decreases 65 - id_bit_number,
        {
            let id_bit = self.request_bit();
            let cmp_id_bit = self.request_bit();
            if id_bit && cmp_id_bit {
                // Nothing answered at all: the bus went idle mid-walk.
                return Err(PortErrors::NoDevices);
            }
            let search_direction: bool = if id_bit || cmp_id_bit {
                // The bits differ: every remaining device agrees here.
                id_bit
            } else {
                // A genuine collision between devices.
                let dir = resolve_collision(
                    id_bit_number,
                    it.last_discrepancy,
                    (it.rom[id_byte_number] & id_byte_mask) != 0,
                );
                if !dir {
                    // A 0 was picked at a collision: remember the position.
                    last_zero = id_bit_number;
                    if last_zero < 9 {
                        it.last_family_discrepancy = last_zero;
                    }
                }
                dir
            };
            if search_direction {
                it.rom[id_byte_number] = it.rom[id_byte_number] | id_byte_mask;
            } else {
                it.rom[id_byte_number] = it.rom[id_byte_number] & !id_byte_mask;
            }
            // Steer the devices whose next bit disagrees into silence.
            self.send_bit(search_direction);
            proof {
                let k = bit_in_byte;
                assert(k < 7 ==> ((1u8 << k) << 1) == (1u8 << ((k + 1) as u8))) by (bit_vector);
                assert(((1u8 << 7u8) << 1) == 0u8) by (bit_vector);
                assert(k < 8 ==> (1u8 << k) != 0u8) by (bit_vector);
            }
            id_bit_number = id_bit_number + 1;
            id_byte_mask = id_byte_mask << 1;
            proof {
                if bit_in_byte < 7 {
                    bit_in_byte = (bit_in_byte + 1) as u8;
                } else {
                    bit_in_byte = 0;
                }
                assert(bit_in_byte < 8 ==> (1u8 << bit_in_byte) != 0u8) by (bit_vector);
            }
            if id_byte_mask == 0 {
                id_byte_number = id_byte_number + 1;
                id_byte_mask = 1;
                proof {
                    assert((1u8 << 0u8) == 1u8) by (bit_vector);
                }
            }
            if id_byte_number >= 8 {
                // All 64 bits walked: commit the discrepancy bookkeeping.
                it.last_discrepancy = last_zero;
                if it.last_discrepancy == 0 {
                    it.last_device_flag = true;
                }
                if 0 != calculate_crc(it.rom.as_slice()) {
                    return Err(PortErrors::CRCMismatch);
                }
                return Ok(Some(it.rom));
            }
        }
    }
}

/// Compute the Dallas/Maxim 8-bit CRC directly, bit by bit.
pub fn calculate_crc(buffer: &[u8]) -> (r: u8)
    ensures
        r == crc8(buffer@),
{
    let mut crc: u8 = 0;
    let mut i: usize = 0;
    proof {
        assert(buffer@.subrange(0, buffer@.len() as int) =~= buffer@);
    }
    while i < buffer.len()
        invariant
            0 <= i <= buffer@.len(),
            crc8_from(crc, buffer@.subrange(i as int, buffer@.len() as int)) == crc8(buffer@),
        decreases buffer@.len() - i,
    {
        let mut d: u8 = buffer[i];
        let ghost crc_at_byte: u8 = crc;
        let ghost byte: u8 = d;
        let mut bit: usize = 0;
        while bit < 8
            invariant
                0 <= bit <= 8,
                crc8_bits(crc, d, (8 - bit) as nat) == crc8_byte(crc_at_byte, byte),
        decreases 8 - bit,
        {
            proof {
                assert(((crc ^ d) & 1 != 0) == (((crc & 1) == 1) != ((d & 1) == 1)))
                    by (bit_vector);
                assert(crc8_bits(crc, d, (8 - bit) as nat) == crc8_bits(
                    crc8_bit(crc, d & 1 == 1),
                    d >> 1,
                    (8 - (bit + 1)) as nat,
                ));
            }
            if (crc ^ d) & 1 != 0 {
                crc = (crc >> 1) ^ 0x8c;
            } else {
                crc = crc >> 1;
            }
            d = d >> 1;
            bit = bit + 1;
        }
        proof {
            let s = buffer@;
            let rest = s.subrange(i as int, s.len() as int);
            assert(rest[0] == s[i as int]);
            assert(rest.subrange(1, rest.len() as int) =~= s.subrange(
                i + 1,
                s.len() as int,
            ));
            assert(crc8_from(crc_at_byte, rest) == crc8_from(
                crc8_byte(crc_at_byte, byte),
                s.subrange(i + 1, s.len() as int),
            ));
        }
        i = i + 1;
    }
    proof {
        assert(buffer@.subrange(buffer@.len() as int, buffer@.len() as int) =~= Seq::<u8>::empty());
    }
    crc
}

} // verus!
