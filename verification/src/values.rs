//! Numbers and vectors as the editor stores them. A floating-point number is
//! carried as its IEEE 754 bit pattern: the editor stores, compares and hands
//! it back unchanged, and leaves arithmetic on it to the caller.
use crate::list::Same;
use vstd::prelude::*;

verus! {

/// A single-precision number, by its bit pattern.
#[derive(Clone, Copy, PartialEq, Eq, Structural, Debug)]
pub struct F32 {
    pub bits: u32,
}

/// A double-precision number, by its bit pattern.
#[derive(Clone, Copy, PartialEq, Eq, Structural, Debug)]
pub struct F64 {
    pub bits: u64,
}

#[derive(Clone, Copy, PartialEq, Eq, Structural, Debug)]
pub struct Vec2 {
    pub x: F32,
    pub y: F32,
}

#[derive(Clone, Copy, PartialEq, Eq, Structural, Debug)]
pub struct Vec3 {
    pub x: F32,
    pub y: F32,
    pub z: F32,
}

/// Four components: a colour with alpha, or a quaternion in `x y z w` order.
#[derive(Clone, Copy, PartialEq, Eq, Structural, Debug)]
pub struct Vec4 {
    pub x: F32,
    pub y: F32,
    pub z: F32,
    pub w: F32,
}

/// A local transform: translation, rotation (a quaternion) and scale.
#[derive(Clone, Copy, PartialEq, Eq, Structural, Debug)]
pub struct Trs {
    pub translation: Vec3,
    pub rotation: Vec4,
    pub scale: Vec3,
}

pub const F32_ONE_BITS: u32 = 0x3F80_0000;

pub const F64_ONE_BITS: u64 = 0x3FF0_0000_0000_0000;

pub const F64_SIGN: u64 = 0x8000_0000_0000_0000;

pub const F64_INFINITY_BITS: u64 = 0x7FF0_0000_0000_0000;

pub const F32_SIGN: u32 = 0x8000_0000;

pub const F32_INFINITY_BITS: u32 = 0x7F80_0000;

impl F64 {
    #[verifier::allow_in_spec]
    pub fn zero() -> F64
        returns
            (F64 { bits: 0 }),
    {
        F64 { bits: 0 }
    }

    #[verifier::allow_in_spec]
    pub fn one() -> F64
        returns
            (F64 { bits: F64_ONE_BITS }),
    {
        F64 { bits: F64_ONE_BITS }
    }

    /// Whether the sign bit is set.
    pub open spec fn negative(self) -> bool {
        self.bits >= F64_SIGN
    }

    /// The pattern without its sign.
    pub open spec fn magnitude(self) -> int {
        if self.negative() {
            self.bits - F64_SIGN
        } else {
            self.bits as int
        }
    }

    /// Whether the pattern is not a number.
    pub open spec fn nan(self) -> bool {
        self.magnitude() > F64_INFINITY_BITS
    }

    /// The position of a number on the line: signed magnitude, both zeros at 0.
    pub open spec fn value_rank(self) -> int {
        if self.negative() {
            -self.magnitude()
        } else {
            self.magnitude()
        }
    }

    /// IEEE `<`: false where either side is not a number.
    pub open spec fn before(self, other: F64) -> bool {
        !self.nan() && !other.nan() && self.value_rank() < other.value_rank()
    }

    /// The place in the total order of all patterns: negative patterns first,
    /// the larger the magnitude the earlier; then the others by magnitude.
    pub open spec fn total_rank(self) -> int {
        if self.negative() {
            -self.magnitude() - 1
        } else {
            self.magnitude()
        }
    }

    pub fn is_nan(self) -> (b: bool)
        ensures
            b == self.nan(),
    {
        if self.bits >= F64_SIGN {
            self.bits - F64_SIGN > F64_INFINITY_BITS
        } else {
            self.bits > F64_INFINITY_BITS
        }
    }

    /// IEEE `<` on the two numbers.
    pub fn lt(self, other: F64) -> (b: bool)
        ensures
            b == self.before(other),
    {
        if self.is_nan() || other.is_nan() {
            return false;
        }
        if self.bits >= F64_SIGN {
            if other.bits >= F64_SIGN {
                other.bits < self.bits
            } else {
                self.bits > F64_SIGN || other.bits > 0
            }
        } else {
            if other.bits >= F64_SIGN {
                false
            } else {
                self.bits < other.bits
            }
        }
    }

    /// Whether `self` comes no later than `other` in the total order.
    pub fn total_le(self, other: F64) -> (b: bool)
        ensures
            b == (self.total_rank() <= other.total_rank()),
    {
        if self.bits >= F64_SIGN {
            if other.bits >= F64_SIGN {
                other.bits <= self.bits
            } else {
                true
            }
        } else {
            if other.bits >= F64_SIGN {
                false
            } else {
                self.bits <= other.bits
            }
        }
    }

    /// The number, or zero where it is below zero or not a number.
    pub open spec fn floored(self) -> F64 {
        if self.nan() || self.value_rank() <= 0 {
            F64::zero()
        } else {
            self
        }
    }

    /// The larger of the number and zero; zero where it is not a number.
    pub fn at_least_zero(self) -> (r: F64)
        ensures
            r == self.floored(),
    {
        if self.is_nan() || self.bits >= F64_SIGN || self.bits == 0 {
            F64::zero()
        } else {
            self
        }
    }
}

impl Vec3 {
    /// Whether two points are the same in every coordinate.
    pub open spec fn equals(self, other: Vec3) -> bool {
        self.x.equals(other.x) && self.y.equals(other.y) && self.z.equals(other.z)
    }

    pub fn eq_value(self, other: Vec3) -> (b: bool)
        ensures
            b == self.equals(other),
    {
        self.x.eq_value(other.x) && self.y.eq_value(other.y) && self.z.eq_value(other.z)
    }

    #[verifier::allow_in_spec]
    pub fn zero() -> Vec3
        returns
            (Vec3 { x: F32 { bits: 0 }, y: F32 { bits: 0 }, z: F32 { bits: 0 } }),
    {
        Vec3 { x: F32 { bits: 0 }, y: F32 { bits: 0 }, z: F32 { bits: 0 } }
    }

    #[verifier::allow_in_spec]
    pub fn one() -> Vec3
        returns
            (Vec3 {
                x: F32 { bits: F32_ONE_BITS },
                y: F32 { bits: F32_ONE_BITS },
                z: F32 { bits: F32_ONE_BITS },
            }),
    {
        Vec3 {
            x: F32 { bits: F32_ONE_BITS },
            y: F32 { bits: F32_ONE_BITS },
            z: F32 { bits: F32_ONE_BITS },
        }
    }
}

impl Vec4 {
    /// The quaternion that rotates nothing.
    #[verifier::allow_in_spec]
    pub fn no_rotation() -> Vec4
        returns
            (Vec4 {
                x: F32 { bits: 0 },
                y: F32 { bits: 0 },
                z: F32 { bits: 0 },
                w: F32 { bits: F32_ONE_BITS },
            }),
    {
        Vec4 {
            x: F32 { bits: 0 },
            y: F32 { bits: 0 },
            z: F32 { bits: 0 },
            w: F32 { bits: F32_ONE_BITS },
        }
    }

    /// Opaque white.
    #[verifier::allow_in_spec]
    pub fn white() -> Vec4
        returns
            (Vec4 {
                x: F32 { bits: F32_ONE_BITS },
                y: F32 { bits: F32_ONE_BITS },
                z: F32 { bits: F32_ONE_BITS },
                w: F32 { bits: F32_ONE_BITS },
            }),
    {
        Vec4 {
            x: F32 { bits: F32_ONE_BITS },
            y: F32 { bits: F32_ONE_BITS },
            z: F32 { bits: F32_ONE_BITS },
            w: F32 { bits: F32_ONE_BITS },
        }
    }
}

impl Trs {
    /// The transform that moves nothing.
    #[verifier::allow_in_spec]
    pub fn identity() -> Trs
        returns
            (Trs { translation: Vec3::zero(), rotation: Vec4::no_rotation(), scale: Vec3::one() }),
    {
        Trs { translation: Vec3::zero(), rotation: Vec4::no_rotation(), scale: Vec3::one() }
    }
}

impl F32 {
    #[verifier::allow_in_spec]
    pub fn zero() -> F32
        returns
            (F32 { bits: 0 }),
    {
        F32 { bits: 0 }
    }

    #[verifier::allow_in_spec]
    pub fn one() -> F32
        returns
            (F32 { bits: F32_ONE_BITS }),
    {
        F32 { bits: F32_ONE_BITS }
    }

    pub open spec fn negative(self) -> bool {
        self.bits >= F32_SIGN
    }

    pub open spec fn magnitude(self) -> int {
        if self.negative() {
            self.bits - F32_SIGN
        } else {
            self.bits as int
        }
    }

    pub open spec fn nan(self) -> bool {
        self.magnitude() > F32_INFINITY_BITS
    }

    pub open spec fn value_rank(self) -> int {
        if self.negative() {
            -self.magnitude()
        } else {
            self.magnitude()
        }
    }

    /// IEEE `==`: false where either side is not a number.
    pub open spec fn equals(self, other: F32) -> bool {
        !self.nan() && !other.nan() && self.value_rank() == other.value_rank()
    }

    pub fn is_nan(self) -> (b: bool)
        ensures
            b == self.nan(),
    {
        if self.bits >= F32_SIGN {
            self.bits - F32_SIGN > F32_INFINITY_BITS
        } else {
            self.bits > F32_INFINITY_BITS
        }
    }

    /// IEEE `<`: false where either side is not a number.
    pub fn lt(self, other: F32) -> (b: bool)
        ensures
            b == (!self.nan() && !other.nan() && self.value_rank() < other.value_rank()),
    {
        if self.is_nan() || other.is_nan() {
            return false;
        }
        if self.bits >= F32_SIGN {
            if other.bits >= F32_SIGN {
                self.bits > other.bits
            } else {
                self.bits > F32_SIGN || other.bits > 0
            }
        } else {
            other.bits < F32_SIGN && self.bits < other.bits
        }
    }

    /// IEEE `==` on the two numbers.
    pub fn eq_value(self, other: F32) -> (b: bool)
        ensures
            b == self.equals(other),
    {
        let a: u32 = if self.bits >= F32_SIGN {
            self.bits - F32_SIGN
        } else {
            self.bits
        };
        let c: u32 = if other.bits >= F32_SIGN {
            other.bits - F32_SIGN
        } else {
            other.bits
        };
        if a > F32_INFINITY_BITS || c > F32_INFINITY_BITS {
            false
        } else {
            self.bits == other.bits || (a == 0 && c == 0)
        }
    }

    /// The number held to the range from zero to one; what is not a number stays.
    pub open spec fn unit_clamped(self) -> F32 {
        if self.nan() {
            self
        } else if self.value_rank() < 0 {
            F32::zero()
        } else if self.value_rank() > F32::one().value_rank() {
            F32::one()
        } else {
            self
        }
    }

    /// Whether the number lies in the range from zero to one.
    pub open spec fn in_unit(self) -> bool {
        !self.nan() && 0 <= self.value_rank() <= F32::one().value_rank()
    }

    /// Whether the number lies in the range from zero to one.
    pub fn is_in_unit(self) -> (b: bool)
        ensures
            b == self.in_unit(),
    {
        self.bits == F32_SIGN || self.bits <= F32_ONE_BITS
    }

    /// The number clamped to the range from zero to one.
    pub fn clamp_unit(self) -> (r: F32)
        ensures
            r == self.unit_clamped(),
    {
        if self.bits >= F32_SIGN {
            if self.bits - F32_SIGN > F32_INFINITY_BITS || self.bits == F32_SIGN {
                self
            } else {
                F32::zero()
            }
        } else if self.bits > F32_INFINITY_BITS {
            self
        } else if self.bits > F32_ONE_BITS {
            F32::one()
        } else {
            self
        }
    }
}

impl Same for F32 {
    fn same(&self) -> (res: Self) {
        *self
    }
}

impl Same for F64 {
    fn same(&self) -> (res: Self) {
        *self
    }
}

impl Same for Vec2 {
    fn same(&self) -> (res: Self) {
        *self
    }
}

impl Same for Vec3 {
    fn same(&self) -> (res: Self) {
        *self
    }
}

impl Same for Vec4 {
    fn same(&self) -> (res: Self) {
        *self
    }
}

impl Same for Trs {
    fn same(&self) -> (res: Self) {
        *self
    }
}

} // verus!
