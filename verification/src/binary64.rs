//! IEEE-754 binary64 values held as their bit patterns.
//!
//! Unix timestamps and progress fractions cross the wire as binary64
//! numbers. The library never computes with them; it only classifies and
//! orders them, and both are exact functions of the bit pattern: a value is
//! NaN when its exponent bits are all ones with a non-zero fraction, finite
//! when its exponent bits are not all ones, and two non-NaN values order as
//! their signed magnitudes do (the magnitude bits of a binary64 value order
//! exactly as the values they encode, and `-0` equals `+0`).

use vstd::prelude::*;

verus! {

pub const SIGN_BIT: u64 = 0x8000_0000_0000_0000;

pub const EXPONENT_MASK: u64 = 0x7FF0_0000_0000_0000;

/// A binary64 value, identified by its bit pattern.
#[derive(Debug, Clone, Copy, PartialEq, Eq, Structural)]
pub struct Binary64 {
    pub bits: u64,
}

impl Binary64 {
    pub open spec fn negative(self) -> bool {
        self.bits >= SIGN_BIT
    }

    /// The bits without the sign.
    pub open spec fn magnitude(self) -> int {
        if self.negative() {
            self.bits - SIGN_BIT
        } else {
            self.bits as int
        }
    }

    pub open spec fn nan(self) -> bool {
        self.magnitude() > EXPONENT_MASK
    }

    pub open spec fn finite(self) -> bool {
        self.magnitude() < EXPONENT_MASK
    }

    /// A key that orders non-NaN values as the reals they denote.
    pub open spec fn key(self) -> int {
        if self.negative() {
            -self.magnitude()
        } else {
            self.magnitude()
        }
    }

    /// `self < other` under IEEE-754 comparison (false when either is NaN).
    pub open spec fn less(self, other: Binary64) -> bool {
        !self.nan() && !other.nan() && self.key() < other.key()
    }

    /// `self <= other` under IEEE-754 comparison (false when either is NaN).
    pub open spec fn less_eq(self, other: Binary64) -> bool {
        !self.nan() && !other.nan() && self.key() <= other.key()
    }

    /// The value positive zero.
    pub open spec fn zero() -> Binary64 {
        Binary64 { bits: 0 }
    }

    pub fn from_bits(bits: u64) -> (b: Binary64)
        ensures
            b.bits == bits,
    {
        Binary64 { bits }
    }

    pub fn to_bits(self) -> (bits: u64)
        ensures
            bits == self.bits,
    {
        self.bits
    }

    fn magnitude_bits(self) -> (m: u64)
        ensures
            m == self.magnitude(),
    {
        if self.bits >= SIGN_BIT {
            self.bits - SIGN_BIT
        } else {
            self.bits
        }
    }

    pub fn is_nan(self) -> (r: bool)
        ensures
            r == self.nan(),
    {
        self.magnitude_bits() > EXPONENT_MASK
    }

    pub fn is_finite(self) -> (r: bool)
        ensures
            r == self.finite(),
    {
        self.magnitude_bits() < EXPONENT_MASK
    }

    fn order_key(self) -> (k: i128)
        ensures
            k == self.key(),
    {
        let m = self.magnitude_bits() as i128;
        if self.bits >= SIGN_BIT {
            -m
        } else {
            m
        }
    }

    /// IEEE-754 `<`.
    pub fn lt(self, other: Binary64) -> (r: bool)
        ensures
            r == self.less(other),
    {
        !self.is_nan() && !other.is_nan() && self.order_key() < other.order_key()
    }

    /// IEEE-754 `<=`.
    pub fn le(self, other: Binary64) -> (r: bool)
        ensures
            r == self.less_eq(other),
    {
        !self.is_nan() && !other.is_nan() && self.order_key() <= other.order_key()
    }
}

} // verus!
