use vstd::prelude::*;

verus! {

/// The weight of the sign bit in a [`Scalar`]'s sixty-four bits.
pub const SIGN_BIT: u64 = 0x8000_0000_0000_0000;

/// The magnitude of infinity; every larger magnitude is not a number.
pub const INFINITY_BITS: u64 = 0x7FF0_0000_0000_0000;

/// The bits of the number one.
pub const ONE_BITS: u64 = 0x3FF0_0000_0000_0000;

/// A double, held by its bits.
///
/// The bits are read as a sign and a magnitude. Among numbers the magnitude
/// grows with the absolute value, so the signed magnitude, the *rank*, orders
/// scalars as the numbers themselves are ordered, and the two zeros share rank
/// zero. A magnitude above that of infinity is not a number: it is neither
/// below, above nor equal to anything, itself included.
#[derive(Clone, Copy, Debug, PartialEq, Eq, Structural)]
pub struct Scalar {
    pub bits: u64,
}

impl View for Scalar {
    type V = int;

    /// The rank: the magnitude, negated where the sign bit is set.
    open spec fn view(&self) -> int {
        if self.bits < SIGN_BIT {
            self.bits as int
        } else {
            SIGN_BIT as int - self.bits as int
        }
    }
}

impl Scalar {
    /// The bits without the sign.
    pub open spec fn magnitude(self) -> int {
        if self.bits < SIGN_BIT {
            self.bits as int
        } else {
            self.bits as int - SIGN_BIT as int
        }
    }

    /// Whether the bits stand for no number at all.
    pub open spec fn spec_is_nan(self) -> bool {
        self.magnitude() > INFINITY_BITS as int
    }

    /// `self < other` as doubles compare.
    pub open spec fn spec_lt(self, other: Scalar) -> bool {
        !self.spec_is_nan() && !other.spec_is_nan() && self@ < other@
    }

    /// `self <= other` as doubles compare.
    pub open spec fn spec_le(self, other: Scalar) -> bool {
        !self.spec_is_nan() && !other.spec_is_nan() && self@ <= other@
    }

    /// `self > other` as doubles compare.
    pub open spec fn spec_gt(self, other: Scalar) -> bool {
        other.spec_lt(self)
    }

    /// `self >= other` as doubles compare.
    pub open spec fn spec_ge(self, other: Scalar) -> bool {
        other.spec_le(self)
    }

    /// The smaller of two doubles: the other one where one is not a number,
    /// `self` where they compare equal.
    pub open spec fn spec_min(self, other: Scalar) -> Scalar {
        if self.spec_is_nan() {
            other
        } else if other.spec_lt(self) {
            other
        } else {
            self
        }
    }

    /// The larger of two doubles: the other one where one is not a number,
    /// `self` where they compare equal.
    pub open spec fn spec_max(self, other: Scalar) -> Scalar {
        if self.spec_is_nan() {
            other
        } else if self.spec_lt(other) {
            other
        } else {
            self
        }
    }

    /// The same double with the other sign.
    pub open spec fn spec_neg(self) -> Scalar {
        Scalar {
            bits: if self.bits < SIGN_BIT {
                (self.bits + SIGN_BIT) as u64
            } else {
                (self.bits - SIGN_BIT) as u64
            },
        }
    }

    pub fn from_bits(bits: u64) -> (s: Scalar)
        ensures
            s.bits == bits,
    {
        Scalar { bits }
    }

    pub fn to_bits(self) -> (bits: u64)
        ensures
            bits == self.bits,
    {
        self.bits
    }

    pub fn zero() -> (s: Scalar)
        ensures
            s.bits == 0,
    {
        Scalar { bits: 0 }
    }

    pub fn one() -> (s: Scalar)
        ensures
            s.bits == ONE_BITS,
    {
        Scalar { bits: ONE_BITS }
    }

    pub fn infinity() -> (s: Scalar)
        ensures
            s.bits == INFINITY_BITS,
    {
        Scalar { bits: INFINITY_BITS }
    }

    pub fn neg_infinity() -> (s: Scalar)
        ensures
            s.bits == INFINITY_BITS + SIGN_BIT,
    {
        Scalar { bits: INFINITY_BITS + SIGN_BIT }
    }

    /// The rank as a machine integer.
    pub fn rank(self) -> (k: i64)
        ensures
            k == self@,
    {
        if self.bits < SIGN_BIT {
            self.bits as i64
        } else {
            let m: u64 = self.bits - SIGN_BIT;
            0 - (m as i64)
        }
    }

    #[verifier::when_used_as_spec(spec_is_nan)]
    pub fn is_nan(self) -> (b: bool)
        ensures
            b == self.spec_is_nan(),
    {
        if self.bits < SIGN_BIT {
            self.bits > INFINITY_BITS
        } else {
            self.bits - SIGN_BIT > INFINITY_BITS
        }
    }

    #[verifier::when_used_as_spec(spec_lt)]
    pub fn lt(self, other: Scalar) -> (b: bool)
        ensures
            b == self.spec_lt(other),
    {
        !self.is_nan() && !other.is_nan() && self.rank() < other.rank()
    }

    #[verifier::when_used_as_spec(spec_le)]
    pub fn le(self, other: Scalar) -> (b: bool)
        ensures
            b == self.spec_le(other),
    {
        !self.is_nan() && !other.is_nan() && self.rank() <= other.rank()
    }

    #[verifier::when_used_as_spec(spec_gt)]
    pub fn gt(self, other: Scalar) -> (b: bool)
        ensures
            b == self.spec_gt(other),
    {
        other.lt(self)
    }

    #[verifier::when_used_as_spec(spec_ge)]
    pub fn ge(self, other: Scalar) -> (b: bool)
        ensures
            b == self.spec_ge(other),
    {
        other.le(self)
    }

    #[verifier::when_used_as_spec(spec_neg)]
    pub fn neg(self) -> (s: Scalar)
        ensures
            s == self.spec_neg(),
    {
        if self.bits < SIGN_BIT {
            Scalar { bits: self.bits + SIGN_BIT }
        } else {
            Scalar { bits: self.bits - SIGN_BIT }
        }
    }

    #[verifier::when_used_as_spec(spec_min)]
    pub fn min(self, other: Scalar) -> (s: Scalar)
        ensures
            s == self.spec_min(other),
    {
        if self.is_nan() {
            other
        } else if other.lt(self) {
            other
        } else {
            self
        }
    }

    #[verifier::when_used_as_spec(spec_max)]
    pub fn max(self, other: Scalar) -> (s: Scalar)
        ensures
            s == self.spec_max(other),
    {
        if self.is_nan() {
            other
        } else if self.lt(other) {
            other
        } else {
            self
        }
    }
}

/// Changing the sign mirrors the number line: the rank is negated, the
/// magnitude and so the kind of value stay, and doing it twice changes nothing.
pub proof fn lemma_neg_mirrors(a: Scalar)
    ensures
        a.spec_neg()@ == -a@,
        a.spec_neg().magnitude() == a.magnitude(),
        a.spec_neg().spec_is_nan() == a.spec_is_nan(),
        a.spec_neg().spec_neg() == a,
{
}

/// Negation turns the order round.
pub proof fn lemma_neg_reverses(a: Scalar, b: Scalar)
    ensures
        a.spec_neg().spec_lt(b.spec_neg()) == b.spec_lt(a),
        a.spec_neg().spec_le(b.spec_neg()) == b.spec_le(a),
{
}

} // verus!
