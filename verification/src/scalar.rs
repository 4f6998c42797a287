//! IEEE-754 binary32 values as bit patterns, and their ordering.
//!
//! A binary32 value is a sign bit followed by 31 bits of magnitude. Patterns
//! whose magnitude lies above that of infinity are NaN. For everything else
//! the numeric order is the order of the signed magnitudes, with the two
//! zeros equal.

use vstd::prelude::*;

verus! {

/// Bit pattern with only the sign bit set (negative zero).
pub const SIGN_BIT: u32 = 0x8000_0000;

/// Bit pattern of positive infinity; larger magnitudes are NaN.
pub const INFINITY_BITS: u32 = 0x7F80_0000;

/// Bit pattern of `1e-4`, the tolerance of the intersection tests.
pub const TOLERANCE_BITS: u32 = 0x38D1_B717;

/// A binary32 number. `==` on this type compares bit patterns, which is finer
/// than numeric equality: it tells the two zeros apart and equates a NaN
/// with itself. Numeric comparisons are the methods below.
#[derive(Clone, Copy, Debug, PartialEq, Eq, Structural)]
pub struct Scalar {
    pub bits: u32,
}

/// Three binary32 components: a point, a direction or a colour.
#[derive(Clone, Copy, Debug, PartialEq, Eq, Structural)]
pub struct Vec3 {
    pub x: Scalar,
    pub y: Scalar,
    pub z: Scalar,
}

impl Scalar {
    /// The pattern without its sign bit.
    pub open spec fn magnitude(self) -> int {
        if self.bits >= SIGN_BIT {
            self.bits - SIGN_BIT
        } else {
            self.bits as int
        }
    }

    /// Whether the sign bit is set.
    pub open spec fn sign_negative(self) -> bool {
        self.bits >= SIGN_BIT
    }

    /// Whether the pattern encodes a NaN.
    pub open spec fn nan(self) -> bool {
        self.magnitude() > INFINITY_BITS
    }

    /// Position of a non-NaN value on the number line: the signed magnitude.
    /// Both zeros have rank 0.
    pub open spec fn rank(self) -> int {
        if self.sign_negative() {
            -self.magnitude()
        } else {
            self.magnitude()
        }
    }

    /// Numeric `<`: false as soon as either side is NaN.
    pub open spec fn less(self, other: Scalar) -> bool {
        !self.nan() && !other.nan() && self.rank() < other.rank()
    }

    /// Numeric `<=`: false as soon as either side is NaN.
    pub open spec fn at_most(self, other: Scalar) -> bool {
        !self.nan() && !other.nan() && self.rank() <= other.rank()
    }

    /// The value with its sign bit cleared.
    pub open spec fn magnitude_of(self) -> Scalar {
        Scalar { bits: self.magnitude() as u32 }
    }

    /// Positive zero.
    pub open spec fn zero_spec() -> Scalar {
        Scalar { bits: 0 }
    }

    /// The tolerance `1e-4`.
    pub open spec fn tolerance_spec() -> Scalar {
        Scalar { bits: TOLERANCE_BITS }
    }

    pub fn from_bits(bits: u32) -> (r: Scalar)
        ensures
            r.bits == bits,
    {
        Scalar { bits }
    }

    pub fn to_bits(self) -> (r: u32)
        ensures
            r == self.bits,
    {
        self.bits
    }

    #[verifier::when_used_as_spec(zero_spec)]
    pub fn zero() -> (r: Scalar)
        ensures
            r == Scalar::zero_spec(),
    {
        Scalar { bits: 0 }
    }

    #[verifier::when_used_as_spec(tolerance_spec)]
    pub fn tolerance() -> (r: Scalar)
        ensures
            r == Scalar::tolerance_spec(),
    {
        Scalar { bits: TOLERANCE_BITS }
    }

    pub fn is_nan(self) -> (r: bool)
        ensures
            r == self.nan(),
    {
        let magnitude: u32 = if self.bits >= SIGN_BIT {
            self.bits - SIGN_BIT
        } else {
            self.bits
        };
        magnitude > INFINITY_BITS
    }

    #[verifier::when_used_as_spec(magnitude_of)]
    pub fn abs(self) -> (r: Scalar)
        ensures
            r == self.magnitude_of(),
            r.nan() == self.nan(),
            !r.sign_negative(),
    {
        if self.bits >= SIGN_BIT {
            Scalar { bits: self.bits - SIGN_BIT }
        } else {
            self
        }
    }

    fn signed_magnitude(self) -> (r: i64)
        ensures
            r == self.rank(),
    {
        if self.bits >= SIGN_BIT {
            let magnitude: u32 = self.bits - SIGN_BIT;
            -(magnitude as i64)
        } else {
            self.bits as i64
        }
    }

    #[verifier::when_used_as_spec(less)]
    pub fn lt(self, other: Scalar) -> (r: bool)
        ensures
            r == self.less(other),
    {
        !self.is_nan() && !other.is_nan() && self.signed_magnitude() < other.signed_magnitude()
    }

    #[verifier::when_used_as_spec(at_most)]
    pub fn le(self, other: Scalar) -> (r: bool)
        ensures
            r == self.at_most(other),
    {
        !self.is_nan() && !other.is_nan() && self.signed_magnitude() <= other.signed_magnitude()
    }

    /// Numeric `>`.
    pub fn gt(self, other: Scalar) -> (r: bool)
        ensures
            r == other.less(self),
    {
        other.lt(self)
    }

    /// Numeric `>=`.
    pub fn ge(self, other: Scalar) -> (r: bool)
        ensures
            r == other.at_most(self),
    {
        other.le(self)
    }
}

/// Numeric `<` is a strict order on the values that are not NaN: nothing is
/// less than itself, and the relation is transitive.
pub proof fn lemma_less_is_strict(a: Scalar, b: Scalar, c: Scalar)
    ensures
        !a.less(a),
        a.less(b) && b.less(c) ==> a.less(c),
        a.less(b) ==> a.at_most(b) && !b.less(a),
{
}

/// Of two values that are not NaN, one is less than the other unless they
/// are numerically equal; so `<=` is the negation of the opposite `<`.
pub proof fn lemma_less_is_total(a: Scalar, b: Scalar)
    requires
        !a.nan(),
        !b.nan(),
    ensures
        a.less(b) || b.less(a) || a.rank() == b.rank(),
        a.at_most(b) <==> !b.less(a),
{
}

/// A comparison with a NaN on either side is false.
pub proof fn lemma_nan_is_unordered(a: Scalar, b: Scalar)
    requires
        a.nan() || b.nan(),
    ensures
        !a.less(b),
        !b.less(a),
        !a.at_most(b),
        !b.at_most(a),
{
}

impl Vec3 {
    /// The vector whose components are all positive zero.
    pub open spec fn zero_spec() -> Vec3 {
        Vec3 { x: Scalar { bits: 0 }, y: Scalar { bits: 0 }, z: Scalar { bits: 0 } }
    }

    #[verifier::when_used_as_spec(zero_spec)]
    pub fn zero() -> (r: Vec3)
        ensures
            r == Vec3::zero_spec(),
    {
        Vec3 { x: Scalar::zero(), y: Scalar::zero(), z: Scalar::zero() }
    }

    pub fn new(x: Scalar, y: Scalar, z: Scalar) -> (r: Vec3)
        ensures
            r == (Vec3 { x, y, z }),
    {
        Vec3 { x, y, z }
    }

    /// The vector whose components have the given bit patterns.
    pub open spec fn from_bits_spec(x: u32, y: u32, z: u32) -> Vec3 {
        Vec3 { x: Scalar { bits: x }, y: Scalar { bits: y }, z: Scalar { bits: z } }
    }

    #[verifier::when_used_as_spec(from_bits_spec)]
    pub fn from_bits(x: u32, y: u32, z: u32) -> (r: Vec3)
        ensures
            r == Vec3::from_bits_spec(x, y, z),
    {
        Vec3 { x: Scalar { bits: x }, y: Scalar { bits: y }, z: Scalar { bits: z } }
    }
}

} // verus!
