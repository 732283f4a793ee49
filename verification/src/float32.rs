//! Single-precision numbers by their bit pattern.
//!
//! Sampling parameters are only compared with fixed bounds, selected and handed
//! on, never computed with. They are carried as IEEE 754 bit patterns; the order
//! of two numbers is the order of their signed magnitudes.

use vstd::prelude::*;

verus! {

/// An IEEE 754 binary32 number, by its bit pattern.
#[derive(Clone, Copy, Debug, PartialEq, Eq, Structural)]
pub struct F32 {
    pub bits: u32,
}

/// The bit pattern of the sign.
pub const SIGN_BIT: u32 = 0x8000_0000;

/// The magnitude of infinity; greater magnitudes are not numbers.
pub const INFINITY_MAGNITUDE: u32 = 0x7f80_0000;

/// The bit pattern of 1.
pub const ONE_BITS: u32 = 0x3f80_0000;

/// The bit pattern of 2.
pub const TWO_BITS: u32 = 0x4000_0000;

/// The bit pattern of -2.
pub const MINUS_TWO_BITS: u32 = 0xc000_0000;

impl F32 {
    /// The bits without the sign.
    pub open spec fn magnitude(self) -> int {
        if self.bits >= SIGN_BIT {
            self.bits - SIGN_BIT
        } else {
            self.bits as int
        }
    }

    /// Not a number.
    pub open spec fn nan(self) -> bool {
        self.magnitude() > INFINITY_MAGNITUDE
    }

    /// Neither infinite nor not a number.
    pub open spec fn finite(self) -> bool {
        self.magnitude() < INFINITY_MAGNITUDE
    }

    /// The place of a number in the order of all numbers; both zeros have the
    /// same place.
    pub open spec fn rank(self) -> int {
        if self.bits >= SIGN_BIT {
            -self.magnitude()
        } else {
            self.magnitude()
        }
    }

    /// `self <= other`; false when either is not a number.
    pub open spec fn at_most(self, other: F32) -> bool {
        !self.nan() && !other.nan() && self.rank() <= other.rank()
    }

    /// `lo <= self <= hi`.
    pub open spec fn within(self, lo: F32, hi: F32) -> bool {
        lo.at_most(self) && self.at_most(hi)
    }

    fn magnitude_bits(self) -> (r: u32)
        ensures
            r == self.magnitude(),
    {
        if self.bits >= SIGN_BIT {
            self.bits - SIGN_BIT
        } else {
            self.bits
        }
    }

    fn rank_bits(self) -> (r: i64)
        ensures
            r == self.rank(),
    {
        let m: i64 = self.magnitude_bits() as i64;
        if self.bits >= SIGN_BIT {
            -m
        } else {
            m
        }
    }

    /// Whether this is not a number.
    pub fn is_nan(self) -> (r: bool)
        ensures
            r == self.nan(),
    {
        self.magnitude_bits() > INFINITY_MAGNITUDE
    }

    /// Whether this is neither infinite nor not a number.
    pub fn is_finite(self) -> (r: bool)
        ensures
            r == self.finite(),
    {
        self.magnitude_bits() < INFINITY_MAGNITUDE
    }

    /// Whether `self <= other`.
    pub fn is_at_most(self, other: F32) -> (r: bool)
        ensures
            r == self.at_most(other),
    {
        !self.is_nan() && !other.is_nan() && self.rank_bits() <= other.rank_bits()
    }

    /// Whether `lo <= self <= hi`.
    pub fn is_within(self, lo: F32, hi: F32) -> (r: bool)
        ensures
            r == self.within(lo, hi),
    {
        lo.is_at_most(self) && self.is_at_most(hi)
    }

    /// Whether this is zero, of either sign.
    pub fn is_zero(self) -> (r: bool)
        ensures
            r == (self.rank() == 0),
    {
        self.rank_bits() == 0
    }
}

/// Numbers are told apart by their bits: those above infinity are no numbers, a number
/// is at most another when its place in the order is no higher, and both zeros are zero.
pub proof fn law_bits_order_the_numbers(x: F32, y: F32, nan: bool, finite: bool, le: bool, zero: bool)
    requires
        call_ensures(F32::is_nan, (x,), nan),
        call_ensures(F32::is_finite, (x,), finite),
        call_ensures(F32::is_at_most, (x, y), le),
        call_ensures(F32::is_zero, (x,), zero),
    ensures
        nan == (0x7f80_0000 < x.bits < 0x8000_0000 || x.bits > 0xff80_0000),
        finite == (x.bits < 0x7f80_0000 || 0x8000_0000 <= x.bits < 0xff80_0000),
        zero == (x.bits == 0 || x.bits == 0x8000_0000),
        x.bits <= 0x7f80_0000 && y.bits <= 0x7f80_0000 ==> le == (x.bits <= y.bits),
        0x8000_0000 <= x.bits <= 0xff80_0000 && y.bits <= 0x7f80_0000 ==> le,
        0x8000_0000 <= x.bits <= 0xff80_0000 && 0x8000_0000 <= y.bits <= 0xff80_0000 ==> le == (
        x.bits >= y.bits),
        nan ==> !le,
{
}

} // verus!
