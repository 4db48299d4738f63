//! A fixed-point temperature value: 1/16 degree Celsius units, with
//! arithmetic, sign-stripped decomposition, and a human-readable rendering.

use vstd::prelude::*;

verus! {

/// The absolute value of a temperature's underlying 1/16 degree count.
pub open spec fn spec_abs_sixteenths(s: int) -> int {
    if s < 0 {
        -s
    } else {
        s
    }
}

/// The nearest single decimal digit to `frac`/16, for `frac` in 0..16.
pub open spec fn spec_fraction_digit(frac: int) -> int {
    (frac * 10 + 8) / 16
}

/// Temperature in 1/16 Celsius, as a signed 16-bit fixed-point value.
#[derive(Debug, Clone, Copy, PartialEq, Eq, Structural, PartialOrd, Ord)]
pub struct Temperature(pub i16);

impl Temperature {
    /// The underlying value in 1/16 degree units.
    pub open spec fn sixteenths(self) -> int {
        self.0 as int
    }

    /// Compose a value from whole degrees and sixteenths of a degree.
    pub fn from_celsius(degrees: i16, degrees_div_16: i16) -> (r: Self)
        requires
            i16::MIN <= degrees * 16 + degrees_div_16 <= i16::MAX,
        ensures
            r.sixteenths() == degrees * 16 + degrees_div_16,
    {
        Temperature((degrees as i32 * 16 + degrees_div_16 as i32) as i16)
    }

    pub fn is_negative(&self) -> (r: bool)
        ensures
            r == (self.sixteenths() < 0),
    {
        self.0 < 0i16
    }

    /// The whole degrees of the absolute value; the sign is ignored.
    pub fn whole_degrees(&self) -> (r: u16)
        requires
            self.sixteenths() != i16::MIN,
        ensures
            r == spec_abs_sixteenths(self.sixteenths()) / 16,
    {
        let v: i16 = if self.0 < 0 {
            -self.0
        } else {
            self.0
        };
        (v / 16) as u16
    }

    /// The sixteenths of a degree past the whole part of the absolute value;
    /// the sign is ignored.
    pub fn fraction_degrees(&self) -> (r: u8)
        requires
            self.sixteenths() != i16::MIN,
        ensures
            r == spec_abs_sixteenths(self.sixteenths()) % 16,
    {
        let v: i16 = if self.0 < 0 {
            -self.0
        } else {
            self.0
        };
        (v % 16) as u8
    }

    /// Plain fixed-point addition of the underlying 1/16 degree counts.
    pub fn add(self, rhs: Self) -> (r: Self)
        requires
            i16::MIN <= self.sixteenths() + rhs.sixteenths() <= i16::MAX,
        ensures
            r.sixteenths() == self.sixteenths() + rhs.sixteenths(),
    {
        Temperature(self.0 + rhs.0)
    }

    /// Plain fixed-point subtraction of the underlying 1/16 degree counts.
    pub fn sub(self, rhs: Self) -> (r: Self)
        requires
            i16::MIN <= self.sixteenths() - rhs.sixteenths() <= i16::MAX,
        ensures
            r.sixteenths() == self.sixteenths() - rhs.sixteenths(),
    {
        Temperature(self.0 - rhs.0)
    }

    /// The single decimal digit nearest to the fractional part of the
    /// absolute value, by a 16-entry rounding lookup table.
    pub fn fraction_digit(&self) -> (r: u8)
        requires
            self.sixteenths() != i16::MIN,
        ensures
            r == spec_fraction_digit(spec_abs_sixteenths(self.sixteenths()) % 16),
    {
        let table: [u8; 16] = [0, 1, 1, 2, 3, 3, 4, 4, 5, 6, 6, 7, 8, 8, 9, 9];
        let frac = self.fraction_degrees();
        table[frac as usize]
    }

    /// Render as ASCII: sign, two whole-degree digits, a decimal point, and
    /// the rounded fractional digit, as in `b" 25.1"`.
    pub fn render(&self) -> (r: [u8; 5])
        requires
            -1600 < self.sixteenths() < 1600,
        ensures
            r@[0] == (if self.sixteenths() < 0 {
                45u8
            } else {
                32u8
            }),
            r@[1] == (spec_abs_sixteenths(self.sixteenths()) / 160 + 48) as u8,
            r@[2] == (spec_abs_sixteenths(self.sixteenths()) / 16 % 10 + 48) as u8,
            r@[3] == 46u8,
            r@[4] == (spec_fraction_digit(spec_abs_sixteenths(self.sixteenths()) % 16) + 48) as u8,
    {
        let sign: u8 = if self.0 < 0 {
            45
        } else {
            32
        };
        let whole = self.whole_degrees();
        let mut out: [u8; 5] = [sign, 48, 48, 46, 48];
        out[1] = (whole / 10) as u8 + 48;
        out[2] = (whole % 10) as u8 + 48;
        out[4] = self.fraction_digit() + 48;
        out
    }
}

impl From<i16> for Temperature {
    /// Wrap a raw 1/16 degree count, as decoded from a scratchpad.
    fn from(original: i16) -> (r: Temperature) {
        Temperature(original)
    }
}

impl vstd::std_specs::convert::FromSpecImpl<i16> for Temperature {
    open spec fn obeys_from_spec() -> bool {
        true
    }

    open spec fn from_spec(original: i16) -> Temperature {
        Temperature(original)
    }
}

} // verus!
