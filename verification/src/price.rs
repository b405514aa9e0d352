//! A price, held as the sixty-four bits of an IEEE 754 double, and the
//! partial order of such numbers stated over the bits.

use vstd::prelude::*;
use crate::order::Order;

verus! {

/// The bit that holds the sign.
pub const SIGN_BIT: u64 = 0x8000_0000_0000_0000;

/// The bits of positive infinity: every exponent bit set, no fraction bit.
pub const INFINITY_BITS: u64 = 0x7ff0_0000_0000_0000;

/// A price as the bit pattern of a double-precision number. A caller with
/// a floating-point number at hand stores its bits and reads them back
/// unchanged.
#[derive(Clone, Copy, Debug)]
pub struct Price {
    pub bits: u64,
}

impl Price {
    /// The bits without the sign.
    pub open spec fn magnitude(self) -> int {
        if self.bits >= SIGN_BIT {
            self.bits - SIGN_BIT
        } else {
            self.bits as int
        }
    }

    /// Whether the sign bit is set.
    pub open spec fn is_negative(self) -> bool {
        self.bits >= SIGN_BIT
    }

    /// Whether the bits stand for "not a number": what remains without the
    /// sign lies above the bits of infinity.
    pub open spec fn is_nan(self) -> bool {
        self.magnitude() > INFINITY_BITS
    }

    /// An integer that grows with the number: the magnitude, negated where
    /// the sign is set. Both zeros have the key 0.
    pub open spec fn key(self) -> int {
        if self.is_negative() {
            -self.magnitude()
        } else {
            self.magnitude()
        }
    }

    /// The outcome of comparing two prices as numbers. "Not a number"
    /// compares with nothing, not even with itself; the two zeros are equal.
    pub open spec fn partial_order(self, other: Price) -> Option<Order> {
        if self.is_nan() || other.is_nan() {
            None
        } else {
            Some(Order::of_ints(self.key(), other.key()))
        }
    }

    /// The price with the given bits.
    pub fn from_bits(bits: u64) -> (p: Price)
        ensures
            p.bits == bits,
    {
        Price { bits }
    }

    /// The bits of the price.
    pub fn to_bits(self) -> (bits: u64)
        ensures
            bits == self.bits,
    {
        self.bits
    }

    /// Whether the price is "not a number".
    pub fn is_not_a_number(self) -> (r: bool)
        ensures
            r == self.is_nan(),
    {
        let magnitude = if self.bits >= SIGN_BIT {
            self.bits - SIGN_BIT
        } else {
            self.bits
        };
        magnitude > INFINITY_BITS
    }

    /// Compares two prices as numbers.
    pub fn partial_compare(self, other: Price) -> (r: Option<Order>)
        ensures
            r == self.partial_order(other),
    {
        if self.is_not_a_number() || other.is_not_a_number() {
            return None;
        }
        let a_negative = self.bits >= SIGN_BIT;
        let b_negative = other.bits >= SIGN_BIT;
        let a: u64 = if a_negative {
            self.bits - SIGN_BIT
        } else {
            self.bits
        };
        let b: u64 = if b_negative {
            other.bits - SIGN_BIT
        } else {
            other.bits
        };
        let outcome = if a_negative && b_negative {
            compare_magnitudes(b, a)
        } else if a_negative {
            if a == 0 && b == 0 {
                Order::Equal
            } else {
                Order::Less
            }
        } else if b_negative {
            if a == 0 && b == 0 {
                Order::Equal
            } else {
                Order::Greater
            }
        } else {
            compare_magnitudes(a, b)
        };
        Some(outcome)
    }
}

/// Compares two unsigned integers.
pub fn compare_magnitudes(a: u64, b: u64) -> (r: Order)
    ensures
        r == Order::of_ints(a as int, b as int),
{
    if a < b {
        Order::Less
    } else if a == b {
        Order::Equal
    } else {
        Order::Greater
    }
}

/// Compares two sizes.
pub fn compare_sizes(a: usize, b: usize) -> (r: Order)
    ensures
        r == Order::of_ints(a as int, b as int),
{
    if a < b {
        Order::Less
    } else if a == b {
        Order::Equal
    } else {
        Order::Greater
    }
}

} // verus!
