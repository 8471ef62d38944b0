use vstd::prelude::*;
use crate::geometry::scalar::Scalar;

verus! {

/// Three scalars: a direction, a place ([`Point`]) or a colour ([`Color`]).
#[derive(Clone, Copy, Debug, PartialEq, Eq, Structural)]
pub struct Vector {
    pub x: Scalar,
    pub y: Scalar,
    pub z: Scalar,
}

pub type Point = Vector;

pub type Color = Vector;

impl Vector {
    /// The component along an axis: `x` for 0, `y` for 1, `z` for any other.
    pub open spec fn at(self, axis: int) -> Scalar {
        if axis == 0 {
            self.x
        } else if axis == 1 {
            self.y
        } else {
            self.z
        }
    }

    /// The vector with every component's sign changed.
    pub open spec fn spec_neg(self) -> Vector {
        Vector { x: self.x.spec_neg(), y: self.y.spec_neg(), z: self.z.spec_neg() }
    }

    /// Whether no component is not a number.
    pub open spec fn is_numbers(self) -> bool {
        !self.x.spec_is_nan() && !self.y.spec_is_nan() && !self.z.spec_is_nan()
    }

    pub fn new(x: Scalar, y: Scalar, z: Scalar) -> (v: Vector)
        ensures
            v == (Vector { x, y, z }),
    {
        Vector { x, y, z }
    }

    /// The vector whose three components are all `a`.
    pub fn from(a: Scalar) -> (v: Vector)
        ensures
            v == (Vector { x: a, y: a, z: a }),
    {
        Vector { x: a, y: a, z: a }
    }

    pub fn x(&self) -> (s: Scalar)
        ensures
            s == self.x,
    {
        self.x
    }

    pub fn y(&self) -> (s: Scalar)
        ensures
            s == self.y,
    {
        self.y
    }

    pub fn z(&self) -> (s: Scalar)
        ensures
            s == self.z,
    {
        self.z
    }

    /// The component along `index`, as [`Vector::at`] counts the axes.
    pub fn index(&self, index: usize) -> (s: Scalar)
        ensures
            s == self.at(index as int),
    {
        if index == 0 {
            self.x
        } else if index == 1 {
            self.y
        } else {
            self.z
        }
    }

    #[verifier::when_used_as_spec(spec_neg)]
    pub fn neg(self) -> (v: Vector)
        ensures
            v == self.spec_neg(),
    {
        Vector { x: self.x.neg(), y: self.y.neg(), z: self.z.neg() }
    }
}

} // verus!
