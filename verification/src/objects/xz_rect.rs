use vstd::prelude::*;
use crate::geometry::scalar::Scalar;
use crate::geometry::vector::Point;
use crate::objects::aabb::Aabb;
use crate::objects::hit_record::HitRecord;
use crate::objects::rect::{land, landed, lands, Landing};

verus! {

/// A rectangle in the plane `y = k`, from `x`0 to `x`1 along `x` and from
/// `z`0 to `z`1 along `z`. Its normal points along `y`.
pub struct XZRect<M> {
    pub x0: Scalar,
    pub x1: Scalar,
    pub z0: Scalar,
    pub z1: Scalar,
    pub k: Scalar,
    pub material: M,
}

impl<M> XZRect<M> {
    pub fn new(x0: Scalar, x1: Scalar, z0: Scalar, z1: Scalar, k: Scalar, material: M) -> (r: Self)
        ensures
            r.x0 == x0,
            r.x1 == x1,
            r.z0 == z0,
            r.z1 == z1,
            r.k == k,
            r.material == material,
    {
        Self { x0, x1, z0, z1, k, material }
    }

    /// The hit of a ray on the rectangle, if `at`, where the ray's line meets
    /// the plane, lies strictly inside the window and within the edges; `at.a` is its
    /// `x` and `at.b` its `z`.
    pub fn hit(&self, at: Landing, t_min: Scalar, t_max: Scalar) -> (found: Option<HitRecord<&M>>)
        ensures
            found == if lands(self.x0, self.x1, self.z0, self.z1, at, t_min, t_max) {
                Some(landed(at, 1, &self.material))
            } else {
                None
            },
    {
        land(self.x0, self.x1, self.z0, self.z1, 1, &self.material, at, t_min, t_max)
    }

    /// The box around the rectangle, which reaches from `below` to `above`
    /// along `y`: the caller sets these a little to either side of `k`, so
    /// that the box is not flat.
    pub fn bounding_box(&self, below: Scalar, above: Scalar) -> (b: Aabb)
        ensures
            b == (Aabb {
                min: Point { x: self.x0, y: below, z: self.z0 },
                max: Point { x: self.x1, y: above, z: self.z1 },
            }),
    {
        Aabb::new(
            Point { x: self.x0, y: below, z: self.z0 },
            Point { x: self.x1, y: above, z: self.z1 },
        )
    }
}

} // verus!
