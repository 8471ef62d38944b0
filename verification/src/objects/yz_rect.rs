use vstd::prelude::*;
use crate::geometry::scalar::Scalar;
use crate::geometry::vector::Point;
use crate::objects::aabb::Aabb;
use crate::objects::hit_record::HitRecord;
use crate::objects::rect::{land, landed, lands, Landing};

verus! {

/// A rectangle in the plane `x = k`, from `y`0 to `y`1 along `y` and from
/// `z`0 to `z`1 along `z`. Its normal points along `x`.
pub struct YZRect<M> {
    pub y0: Scalar,
    pub y1: Scalar,
    pub z0: Scalar,
    pub z1: Scalar,
    pub k: Scalar,
    pub material: M,
}

impl<M> YZRect<M> {
    pub fn new(y0: Scalar, y1: Scalar, z0: Scalar, z1: Scalar, k: Scalar, material: M) -> (r: Self)
        ensures
            r.y0 == y0,
            r.y1 == y1,
            r.z0 == z0,
            r.z1 == z1,
            r.k == k,
            r.material == material,
    {
        Self { y0, y1, z0, z1, k, material }
    }

    /// The hit of a ray on the rectangle, if `at`, where the ray's line meets
    /// the plane, lies strictly inside the window and within the edges; `at.a` is its
    /// `y` and `at.b` its `z`.
    pub fn hit(&self, at: Landing, t_min: Scalar, t_max: Scalar) -> (found: Option<HitRecord<&M>>)
        ensures
            found == if lands(self.y0, self.y1, self.z0, self.z1, at, t_min, t_max) {
                Some(landed(at, 0, &self.material))
            } else {
                None
            },
    {
        land(self.y0, self.y1, self.z0, self.z1, 0, &self.material, at, t_min, t_max)
    }

    /// The box around the rectangle, which reaches from `below` to `above`
    /// along `x`: the caller sets these a little to either side of `k`, so
    /// that the box is not flat.
    pub fn bounding_box(&self, below: Scalar, above: Scalar) -> (b: Aabb)
        ensures
            b == (Aabb {
                min: Point { x: below, y: self.y0, z: self.z0 },
                max: Point { x: above, y: self.y1, z: self.z1 },
            }),
    {
        Aabb::new(
            Point { x: below, y: self.y0, z: self.z0 },
            Point { x: above, y: self.y1, z: self.z1 },
        )
    }
}

} // verus!
