use vstd::prelude::*;
use crate::geometry::scalar::Scalar;
use crate::geometry::vector::{Point, Vector};

verus! {

/// Where a ray met a surface.
///
/// `normal` faces the incoming ray; `front_face` tells whether the ray came
/// from outside. `material` is whatever the caller finds the surface's
/// material by; this crate only carries it.
#[derive(Clone, Copy, Debug)]
pub struct HitRecord<M> {
    pub p: Point,
    pub normal: Vector,
    pub material: M,
    pub t: Scalar,
    pub u: Scalar,
    pub v: Scalar,
    pub front_face: bool,
}

impl<M> HitRecord<M> {
    /// The record with its normal turned towards the ray, as
    /// [`HitRecord::set_face_normal`] leaves it.
    pub open spec fn facing(self, dot: Scalar, outward_normal: Vector) -> HitRecord<M> {
        let front_face = dot.spec_lt(Scalar { bits: 0 });
        HitRecord {
            front_face,
            normal: if front_face {
                outward_normal
            } else {
                outward_normal.spec_neg()
            },
            ..self
        }
    }

    /// Orients the record. `dot` is the dot product of the ray's direction
    /// with `outward_normal`: below zero the ray comes from outside and the
    /// normal is kept, otherwise the normal is reversed.
    pub fn set_face_normal(&mut self, dot: Scalar, outward_normal: Vector)
        ensures
            *final(self) == old(self).facing(dot, outward_normal),
    {
        self.front_face = dot.lt(Scalar::zero());
        self.normal = if self.front_face {
            outward_normal
        } else {
            outward_normal.neg()
        };
    }
}

/// The upper end of the search after a test: the parameter of the hit, if
/// there was one, else the end as it was.
pub open spec fn closest<M>(found: Option<HitRecord<M>>, t_max: Scalar) -> Scalar {
    match found {
        Some(h) => h.t,
        None => t_max,
    }
}

} // verus!
