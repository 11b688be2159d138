//! Scalars of the tracer, held as integers that order the way the numbers do.
//!
//! The tracer computes in IEEE 754 single precision. Its decisions only ever
//! compare such numbers, and comparing two of them that are not NaN is
//! comparing two integers: drop the sign bit of the 32-bit pattern, read the
//! rest as an integer, and negate it when the sign bit was set. This integer
//! is the number's key. A smaller number has a smaller key, both zeros have
//! key 0, the two infinities have the keys `INFINITY_KEY` and `-INFINITY_KEY`,
//! and a pattern whose key would lie outside these two is a NaN.

use vstd::prelude::*;

verus! {

/// The key of positive infinity: the largest key of a number.
pub const INFINITY_KEY: i32 = 0x7F80_0000;

/// The key of the number one.
pub const ONE_KEY: i32 = 0x3F80_0000;

/// The key of the largest single-precision number below which a vector
/// component counts as zero (the nearest single-precision number to 1e-8).
pub const NEAR_ZERO_KEY: i32 = 0x322B_CC77;

/// The value of the sign bit in a 32-bit pattern.
pub const SIGN_BIT: u32 = 0x8000_0000;

/// Whether the 32-bit pattern has its sign bit set.
pub open spec fn sign_of_bits(bits: u32) -> bool {
    bits >= SIGN_BIT
}

/// The 32-bit pattern without its sign bit, as an integer.
pub open spec fn magnitude_of_bits(bits: u32) -> int {
    if sign_of_bits(bits) {
        bits - SIGN_BIT
    } else {
        bits as int
    }
}

/// Whether the 32-bit pattern is that of a NaN.
pub open spec fn is_nan_bits(bits: u32) -> bool {
    magnitude_of_bits(bits) > INFINITY_KEY
}

/// The key of the number with the given 32-bit pattern.
pub open spec fn key_of_bits(bits: u32) -> int {
    if sign_of_bits(bits) {
        -magnitude_of_bits(bits)
    } else {
        magnitude_of_bits(bits)
    }
}

/// The 32-bit pattern of the number with the given key, with the sign bit
/// clear for key 0.
pub open spec fn bits_of_key(key: int) -> int {
    if key < 0 {
        SIGN_BIT - key
    } else {
        key
    }
}

/// A single-precision number that is not NaN, held by its key.
#[derive(Clone, Copy, Debug, PartialEq, Eq, Structural)]
pub struct Scalar {
    key: i32,
}

impl View for Scalar {
    type V = int;

    /// The key of the number.
    closed spec fn view(&self) -> int {
        self.key as int
    }
}

impl Scalar {
    #[verifier::type_invariant]
    spec fn in_range(self) -> bool {
        -INFINITY_KEY <= self.key <= INFINITY_KEY
    }

    /// A scalar is known by its key: two scalars with the same key are the
    /// same scalar.
    pub proof fn lemma_key_determines(self, other: Scalar)
        requires
            self@ == other@,
        ensures
            self == other,
    {
    }

    /// The number with the given 32-bit pattern, or `None` for a NaN.
    pub fn from_bits(bits: u32) -> (scalar: Option<Scalar>)
        ensures
            is_nan_bits(bits) <==> scalar is None,
            scalar matches Some(s) ==> s@ == key_of_bits(bits),
    {
        let negative: bool = bits >= SIGN_BIT;
        let magnitude: u32 = if negative {
            bits - SIGN_BIT
        } else {
            bits
        };
        if magnitude > 0x7F80_0000 {
            None
        } else if negative {
            Some(Scalar { key: -(magnitude as i32) })
        } else {
            Some(Scalar { key: magnitude as i32 })
        }
    }

    /// The 32-bit pattern of the number; that of positive zero for key 0.
    pub fn to_bits(self) -> (bits: u32)
        ensures
            bits == bits_of_key(self@),
            !is_nan_bits(bits),
            key_of_bits(bits) == self@,
    {
        proof {
            use_type_invariant(self);
        }
        if self.key < 0 {
            SIGN_BIT + ((-self.key) as u32)
        } else {
            self.key as u32
        }
    }

    /// The key of the number.
    pub fn key(self) -> (key: i32)
        ensures
            key == self@,
            -INFINITY_KEY <= key <= INFINITY_KEY,
    {
        proof {
            use_type_invariant(self);
        }
        self.key
    }

    /// Zero.
    pub fn zero() -> (scalar: Scalar)
        ensures
            scalar@ == 0,
    {
        Scalar { key: 0 }
    }

    /// One.
    pub fn one() -> (scalar: Scalar)
        ensures
            scalar@ == ONE_KEY,
    {
        Scalar { key: ONE_KEY }
    }

    /// Positive infinity: no number is greater.
    pub fn infinity() -> (scalar: Scalar)
        ensures
            scalar@ == INFINITY_KEY,
    {
        Scalar { key: INFINITY_KEY }
    }

    /// Negative infinity: no number is less.
    pub fn neg_infinity() -> (scalar: Scalar)
        ensures
            scalar@ == -INFINITY_KEY,
    {
        Scalar { key: -INFINITY_KEY }
    }

    /// Whether this number is less than `other`.
    pub fn lt(self, other: Scalar) -> (less: bool)
        ensures
            less == (self@ < other@),
    {
        self.key < other.key
    }

    /// Whether this number is less than or equal to `other`.
    pub fn le(self, other: Scalar) -> (at_most: bool)
        ensures
            at_most == (self@ <= other@),
    {
        self.key <= other.key
    }

    /// The number without its sign.
    pub fn abs(self) -> (scalar: Scalar)
        ensures
            scalar@ == if self@ < 0 {
                -self@
            } else {
                self@
            },
    {
        proof {
            use_type_invariant(self);
        }
        if self.key < 0 {
            Scalar { key: -self.key }
        } else {
            self
        }
    }

    /// The number with its sign turned.
    pub fn neg(self) -> (scalar: Scalar)
        ensures
            scalar@ == -self@,
    {
        proof {
            use_type_invariant(self);
        }
        Scalar { key: -self.key }
    }
}

/// Whether the number `a` is less than the number `b`. A NaN, given as
/// `None`, is neither less nor greater than any number.
pub fn less_than(a: Option<Scalar>, b: Option<Scalar>) -> (less: bool)
    ensures
        less == (a matches Some(x) && b matches Some(y) && x@ < y@),
{
    match (a, b) {
        (Some(x), Some(y)) => x.lt(y),
        _ => false,
    }
}

/// Whether the number is negative. A NaN, given as `None`, is not.
pub fn is_negative(x: Option<Scalar>) -> (negative: bool)
    ensures
        negative == (x matches Some(s) && s@ < 0),
{
    match x {
        Some(s) => s.lt(Scalar::zero()),
        None => false,
    }
}

/// Whether the number is positive. A NaN, given as `None`, is not.
pub fn is_positive(x: Option<Scalar>) -> (positive: bool)
    ensures
        positive == (x matches Some(s) && s@ > 0),
{
    match x {
        Some(s) => Scalar::zero().lt(s),
        None => false,
    }
}

/// Whether the size of the number is below `bound`. A NaN, given as `None`,
/// is below nothing.
pub fn is_within(x: Option<Scalar>, bound: Scalar) -> (within: bool)
    ensures
        within == (x matches Some(s) && -bound@ < s@ < bound@),
{
    match x {
        Some(s) => s.abs().lt(bound),
        None => false,
    }
}

/// Whether every component of the vector `(x, y, z)` is so close to zero
/// that the vector cannot serve as a direction: each is smaller in size than
/// the number with key `NEAR_ZERO_KEY`. A NaN component, given as `None`, is
/// not close to zero.
pub fn near_zero_vec3(x: Option<Scalar>, y: Option<Scalar>, z: Option<Scalar>) -> (near: bool)
    ensures
        near == (component_near_zero(x) && component_near_zero(y) && component_near_zero(z)),
{
    let bound = near_zero_bound();
    is_within(x, bound) && is_within(y, bound) && is_within(z, bound)
}

/// Whether one component is smaller in size than the number with key
/// `NEAR_ZERO_KEY`.
pub open spec fn component_near_zero(x: Option<Scalar>) -> bool {
    x matches Some(s) && -NEAR_ZERO_KEY < s@ < NEAR_ZERO_KEY
}

/// The number with key `NEAR_ZERO_KEY`.
fn near_zero_bound() -> (scalar: Scalar)
    ensures
        scalar@ == NEAR_ZERO_KEY,
{
    let bound = Scalar::from_bits(0x322B_CC77);
    bound.unwrap()
}

} // verus!
