//! Single-precision numbers as bit patterns.
//!
//! Opacity, scale, rotation and the colour settings are `f32` values. The
//! library stores, copies, compares and serialises them by their bits; the
//! arithmetic on them is left to the callers, who go to and from `f32` with
//! `f32::to_bits` and `f32::from_bits`.

use vstd::prelude::*;

verus! {

/// The bits of an IEEE 754 single-precision number.
#[derive(Clone, Copy, Debug, PartialEq, Eq, Structural)]
pub struct Scalar {
    pub bits: u32,
}

/// The bits of `1.0`.
pub const ONE_BITS: u32 = 0x3f80_0000;

/// The bits of `0.25`.
pub const QUARTER_BITS: u32 = 0x3e80_0000;

/// The bits of `0.75`.
pub const THREE_QUARTERS_BITS: u32 = 0x3f40_0000;

/// The bits of `0.001`, as near as single precision comes to it.
pub const THOUSANDTH_BITS: u32 = 0x3a83_126f;

/// The bits of positive infinity. Larger magnitudes are not numbers.
pub const INFINITY_BITS: u32 = 0x7f80_0000;

/// The sign bit.
pub const SIGN_BIT: u32 = 0x8000_0000;

/// How many steps of the format `1.0` lies above the least number that is
/// within a thousandth of it.
pub const STEPS_BELOW_ONE: u32 = 16_777;

/// How many steps of the format the largest number that is within a
/// thousandth of `1.0` lies above it.
pub const STEPS_ABOVE_ONE: u32 = 8_388;

impl Scalar {
    pub open spec fn negative(self) -> bool {
        self.bits >= SIGN_BIT
    }

    /// The bits without the sign: the numbers of one sign are ordered as their
    /// magnitudes are.
    pub open spec fn magnitude(self) -> int {
        if self.negative() {
            self.bits - SIGN_BIT
        } else {
            self.bits as int
        }
    }

    pub open spec fn is_nan(self) -> bool {
        self.magnitude() > INFINITY_BITS
    }

    /// Numbers compare as their keys do; the two zeros share the key 0.
    pub open spec fn key(self) -> int {
        if self.negative() {
            -self.magnitude()
        } else {
            self.magnitude()
        }
    }

    /// `self < other`, which is false where either is not a number.
    pub open spec fn lt(self, other: Scalar) -> bool {
        !self.is_nan() && !other.is_nan() && self.key() < other.key()
    }

    /// At least one.
    pub open spec fn at_least_one(self) -> bool {
        !self.is_nan() && self.key() >= ONE_BITS
    }

    /// Nearer to zero than a thousandth.
    pub open spec fn near_zero(self) -> bool {
        self.magnitude() < THOUSANDTH_BITS
    }

    /// Nearer to one than a thousandth. In steps of the format that is
    /// [`STEPS_BELOW_ONE`] downwards and [`STEPS_ABOVE_ONE`] upwards, where
    /// the steps are twice as wide.
    pub open spec fn near_one(self) -> bool {
        ONE_BITS - STEPS_BELOW_ONE <= self.key() <= ONE_BITS + STEPS_ABOVE_ONE
    }

    /// A finite number is `mantissa` times two to the power of `exponent`, with
    /// its sign. An infinity, or what is no number, has the parts of a number
    /// beyond the largest one.
    pub open spec fn mantissa(self) -> nat {
        (if self.magnitude() < 0x80_0000 {
            self.magnitude()
        } else {
            self.magnitude() % 0x80_0000 + 0x80_0000
        }) as nat
    }

    /// See [`Self::mantissa`].
    pub open spec fn exponent(self) -> int {
        if self.magnitude() < 0x80_0000 {
            -149
        } else {
            self.magnitude() / 0x80_0000 - 150
        }
    }

    pub fn is_negative(&self) -> (r: bool)
        ensures
            r == self.negative(),
    {
        self.bits >= SIGN_BIT
    }

    /// The number in parts: [`Self::mantissa`] and [`Self::exponent`].
    pub fn parts(&self) -> (r: (u32, i64))
        ensures
            r.0 == self.mantissa(),
            r.1 == self.exponent(),
    {
        let m: u32 = self.magnitude_bits();
        if m < 0x80_0000 {
            (m, -149)
        } else {
            (m % 0x80_0000 + 0x80_0000, (m / 0x80_0000) as i64 - 150)
        }
    }

    pub fn zero() -> (s: Self)
        ensures
            s.bits == 0,
    {
        Scalar { bits: 0 }
    }

    pub fn one() -> (s: Self)
        ensures
            s.bits == ONE_BITS,
    {
        Scalar { bits: ONE_BITS }
    }

    fn magnitude_bits(&self) -> (m: u32)
        ensures
            m == self.magnitude(),
    {
        if self.bits >= SIGN_BIT {
            self.bits - SIGN_BIT
        } else {
            self.bits
        }
    }

    fn key_bits(&self) -> (k: i64)
        ensures
            k == self.key(),
    {
        if self.bits >= SIGN_BIT {
            -((self.bits - SIGN_BIT) as i64)
        } else {
            self.bits as i64
        }
    }

    pub fn is_not_a_number(&self) -> (r: bool)
        ensures
            r == self.is_nan(),
    {
        self.magnitude_bits() > INFINITY_BITS
    }

    pub fn less_than(&self, other: &Scalar) -> (r: bool)
        ensures
            r == self.lt(*other),
    {
        !self.is_not_a_number() && !other.is_not_a_number() && self.key_bits() < other.key_bits()
    }

    pub fn is_at_least_one(&self) -> (r: bool)
        ensures
            r == self.at_least_one(),
    {
        !self.is_not_a_number() && self.key_bits() >= ONE_BITS as i64
    }

    pub fn is_near_zero(&self) -> (r: bool)
        ensures
            r == self.near_zero(),
    {
        self.magnitude_bits() < THOUSANDTH_BITS
    }

    pub fn is_near_one(&self) -> (r: bool)
        ensures
            r == self.near_one(),
    {
        let k: i64 = self.key_bits();
        k >= ONE_BITS as i64 - STEPS_BELOW_ONE as i64 && k <= ONE_BITS as i64
            + STEPS_ABOVE_ONE as i64
    }
}

/// Numbers with the same sign and parts are the same.
pub proof fn lemma_parts_tell_numbers_apart(a: Scalar, b: Scalar)
    requires
        a.negative() == b.negative(),
        a.mantissa() == b.mantissa(),
        a.exponent() == b.exponent(),
    ensures
        a == b,
{
    assert(a.magnitude() == b.magnitude());
}

} // verus!
