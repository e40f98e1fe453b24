use vstd::prelude::*;

verus! {

/// A binary64 floating-point number, held as its IEEE-754 bit pattern.
#[derive(Clone, Copy, Debug, PartialEq, Eq, Structural)]
pub struct Number {
    pub bits: u64,
}

impl Number {
    /// The sign-magnitude reading of the bits: zero for both zeros, and an
    /// order on non-NaN values that is the numeric order.
    pub open spec fn order(self) -> int {
        let mag = (self.bits & 0x7fff_ffff_ffff_ffff) as int;
        if self.bits >> 63u64 == 1 {
            -mag
        } else {
            mag
        }
    }

    /// All exponent bits set and a nonzero fraction.
    pub open spec fn is_nan(self) -> bool {
        &&& self.bits & 0x7ff0_0000_0000_0000 == 0x7ff0_0000_0000_0000
        &&& self.bits & 0x000f_ffff_ffff_ffff != 0
    }

    /// Floating-point `<`: false whenever either side is NaN.
    pub open spec fn spec_less(self, other: Number) -> bool {
        !self.is_nan() && !other.is_nan() && self.order() < other.order()
    }

    pub fn from_bits(bits: u64) -> (r: Number)
        ensures
            r.bits == bits,
    {
        Number { bits }
    }

    fn order_of(&self) -> (r: i64)
        ensures
            r as int == self.order(),
    {
        let b = self.bits;
        let mag_bits = b & 0x7fff_ffff_ffff_ffff;
        assert(mag_bits <= 0x7fff_ffff_ffff_ffff) by (bit_vector)
            requires
                mag_bits == b & 0x7fff_ffff_ffff_ffff,
        ;
        let mag = mag_bits as i64;
        if b >> 63u64 == 1 {
            -mag
        } else {
            mag
        }
    }

    fn nan(&self) -> (r: bool)
        ensures
            r == self.is_nan(),
    {
        self.bits & 0x7ff0_0000_0000_0000 == 0x7ff0_0000_0000_0000
            && self.bits & 0x000f_ffff_ffff_ffff != 0
    }

    /// Whether `self < other` as floating-point numbers.
    pub fn less_than(&self, other: &Number) -> (r: bool)
        ensures
            r == self.spec_less(*other),
    {
        !self.nan() && !other.nan() && self.order_of() < other.order_of()
    }
}

} // verus!
