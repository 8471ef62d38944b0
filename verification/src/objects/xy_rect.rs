use vstd::prelude::*;
use crate::geometry::scalar::Scalar;
use crate::geometry::vector::Point;
use crate::objects::aabb::Aabb;
use crate::objects::hit_record::HitRecord;
use crate::objects::rect::{land, landed, lands, Landing};

verus! {

/// A rectangle in the plane `z = k`, from `x`0 to `x`1 along `x` and from
/// `y`0 to `y`1 along `y`. Its normal points along `z`.
pub struct XYRect<M> {
    pub x0: Scalar,
    pub x1: Scalar,
    pub y0: Scalar,
    pub y1: Scalar,
    pub k: Scalar,
    pub material: M,
}

impl<M> XYRect<M> {
    pub fn new(x0: Scalar, x1: Scalar, y0: Scalar, y1: Scalar, k: Scalar, material: M) -> (r: Self)
        ensures
            r.x0 == x0,
            r.x1 == x1,
            r.y0 == y0,
            r.y1 == y1,
            r.k == k,
            r.material == material,
    {
        Self { x0, x1, y0, y1, k, material }
    }

    /// The hit of a ray on the rectangle, if `at`, where the ray's line meets
    /// the plane, lies strictly inside the window and within the edges; `at.a` is its
    /// `x` and `at.b` its `y`.
    pub fn hit(&self, at: Landing, t_min: Scalar, t_max: Scalar) -> (found: Option<HitRecord<&M>>)
        ensures
            found == if lands(self.x0, self.x1, self.y0, self.y1, at, t_min, t_max) {
                Some(landed(at, 2, &self.material))
            } else {
                None
            },
    {
        land(self.x0, self.x1, self.y0, self.y1, 2, &self.material, at, t_min, t_max)
    }

    /// The box around the rectangle, which reaches from `below` to `above`
    /// along `z`: the caller sets these a little to either side of `k`, so
    /// that the box is not flat.
    pub fn bounding_box(&self, below: Scalar, above: Scalar) -> (b: Aabb)
        ensures
            b == (Aabb {
                min: Point { x: self.x0, y: self.y0, z: below },
                max: Point { x: self.x1, y: self.y1, z: above },
            }),
    {
        Aabb::new(
            Point { x: self.x0, y: self.y0, z: below },
            Point { x: self.x1, y: self.y1, z: above },
        )
    }
}

} // verus!
