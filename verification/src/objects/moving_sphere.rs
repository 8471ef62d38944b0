use vstd::prelude::*;
use crate::geometry::scalar::Scalar;
use crate::geometry::vector::Point;
use crate::objects::aabb::Aabb;
use crate::objects::hit_record::HitRecord;
use crate::objects::sphere::{choose_crossing, first_inside, record_at, Crossing};

verus! {

/// A sphere whose centre moves in a straight line, from `center_min` at
/// `time_min` to `center_max` at `time_max`.
pub struct MovingSphere<M> {
    pub center_min: Point,
    pub center_max: Point,
    pub time_min: Scalar,
    pub time_max: Scalar,
    pub radius: Scalar,
    pub material: M,
}

/// A crossing without texture coordinates: both are zero.
pub open spec fn untextured(at: Crossing) -> Crossing {
    Crossing { u: Scalar { bits: 0 }, v: Scalar { bits: 0 }, ..at }
}

impl<M> MovingSphere<M> {
    pub fn new(
        center_min: Point,
        center_max: Point,
        time_min: Scalar,
        time_max: Scalar,
        radius: Scalar,
        material: M,
    ) -> (s: Self)
        ensures
            s.center_min == center_min,
            s.center_max == center_max,
            s.time_min == time_min,
            s.time_max == time_max,
            s.radius == radius,
            s.material == material,
    {
        Self { center_min, center_max, time_min, time_max, radius, material }
    }

    /// The hit of a ray on the sphere, where it is at the ray's time, inside
    /// the window. The arguments are those of a sphere at rest; the record
    /// carries no texture coordinates.
    pub fn hit(&self, discriminant: Scalar, near: Crossing, far: Crossing, t_min: Scalar, t_max: Scalar) -> (found:
        Option<HitRecord<&M>>)
        ensures
            found == match first_inside(discriminant, near, far, t_min, t_max) {
                Some(at) => Some(record_at(untextured(at), &self.material)),
                None => None,
            },
    {
        match choose_crossing(discriminant, near, far, t_min, t_max) {
            Some(at) => {
                let mut hit_rec = HitRecord {
                    t: at.t,
                    u: Scalar::zero(),
                    v: Scalar::zero(),
                    p: at.p,
                    normal: at.outward_normal,
                    material: &self.material,
                    front_face: true,
                };
                hit_rec.set_face_normal(at.dot, at.outward_normal);
                Some(hit_rec)
            },
            None => None,
        }
    }

    /// The box around the sphere for a span of time: the one around its box
    /// at the start of the span and its box at the end. `a0` and `b0` are the
    /// centre at the start less and plus the radius, `a1` and `b1` the same at
    /// the end; the sign of the radius does not matter.
    pub fn bounding_box(&self, a0: Point, b0: Point, a1: Point, b1: Point) -> (b: Aabb)
        ensures
            b == Aabb::union(Aabb::spanning(a0, b0), Aabb::spanning(a1, b1)),
    {
        let box0 = Aabb::between(a0, b0);
        let box1 = Aabb::between(a1, b1);
        Aabb::surrounding_box(&box0, &box1)
    }
}

} // verus!
