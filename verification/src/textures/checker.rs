use vstd::prelude::*;
use crate::geometry::scalar::Scalar;
use crate::geometry::vector::Color;

verus! {

/// Two textures that alternate in space like the fields of a chequerboard.
pub struct Checker<T> {
    pub odd: T,
    pub even: T,
}

impl<T> Checker<T> {
    /// The board with `t0` on its even fields and `t1` on its odd ones.
    pub fn new(t0: T, t1: T) -> (c: Self)
        ensures
            c.even == t0,
            c.odd == t1,
    {
        Self { even: t0, odd: t1 }
    }

    /// The texture of the field in which a point lies. `sines` is the product
    /// of the sines of the point's three coordinates, each times ten: below
    /// zero the field is an odd one.
    pub open spec fn field(self, sines: Scalar) -> T {
        if sines.spec_lt(Scalar { bits: 0 }) {
            self.odd
        } else {
            self.even
        }
    }

    /// The colour at a point: what `sample` finds there in the texture of the
    /// point's field.
    pub fn value<'a, S: FnOnce(&'a T) -> Color>(&'a self, sines: Scalar, sample: S) -> (c: Color)
        requires
            forall|t: &T| call_requires(sample, (t,)),
        ensures
            call_ensures(sample, (&self.field(sines),), c),
    {
        if sines.lt(Scalar::zero()) {
            sample(&self.odd)
        } else {
            sample(&self.even)
        }
    }
}

} // verus!
