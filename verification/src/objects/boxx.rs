use vstd::prelude::*;
use crate::geometry::scalar::Scalar;
use crate::geometry::vector::Point;
use crate::objects::aabb::Aabb;
use crate::objects::flip_face::FlipFace;
use crate::objects::hit_record::HitRecord;
use crate::objects::object_list::{scanned, ObjectList};
use crate::objects::xy_rect::XYRect;
use crate::objects::xz_rect::XZRect;
use crate::objects::yz_rect::YZRect;

verus! {

/// One face of a box: a rectangle across one of the three axes, seen from its
/// own side or from the other.
pub enum Side<M> {
    XY(XYRect<M>),
    FlippedXY(FlipFace<XYRect<M>>),
    XZ(XZRect<M>),
    FlippedXZ(FlipFace<XZRect<M>>),
    YZ(YZRect<M>),
    FlippedYZ(FlipFace<YZRect<M>>),
}

/// A box with its edges along the axes, made of six rectangles.
pub struct Boxx<M> {
    pub min: Point,
    pub max: Point,
    pub sides: ObjectList<Side<M>>,
}

/// The six faces of the box between `min` and `max`: for each axis in turn
/// (`z`, `y`, `x`) the face at the greater coordinate, then the face at the
/// smaller one, flipped.
pub open spec fn faces<M>(min: Point, max: Point, material: M) -> Seq<Side<M>> {
    seq![
        Side::XY(XYRect { x0: min.x, x1: max.x, y0: min.y, y1: max.y, k: max.z, material }),
        Side::FlippedXY(
            FlipFace { object: XYRect { x0: min.x, x1: max.x, y0: min.y, y1: max.y, k: min.z, material } },
        ),
        Side::XZ(XZRect { x0: min.x, x1: max.x, z0: min.z, z1: max.z, k: max.y, material }),
        Side::FlippedXZ(
            FlipFace { object: XZRect { x0: min.x, x1: max.x, z0: min.z, z1: max.z, k: min.y, material } },
        ),
        Side::YZ(YZRect { y0: min.y, y1: max.y, z0: min.z, z1: max.z, k: max.x, material }),
        Side::FlippedYZ(
            FlipFace { object: YZRect { y0: min.y, y1: max.y, z0: min.z, z1: max.z, k: min.x, material } },
        ),
    ]
}

impl<M> Side<M> {
    /// The material of the face.
    pub open spec fn material(self) -> M {
        match self {
            Side::XY(r) => r.material,
            Side::FlippedXY(f) => f.object.material,
            Side::XZ(r) => r.material,
            Side::FlippedXZ(f) => f.object.material,
            Side::YZ(r) => r.material,
            Side::FlippedYZ(f) => f.object.material,
        }
    }

    /// The same face of another material.
    pub open spec fn of(self, material: M) -> Side<M> {
        match self {
            Side::XY(r) => Side::XY(XYRect { material, ..r }),
            Side::FlippedXY(f) => Side::FlippedXY(FlipFace { object: XYRect { material, ..f.object } }),
            Side::XZ(r) => Side::XZ(XZRect { material, ..r }),
            Side::FlippedXZ(f) => Side::FlippedXZ(FlipFace { object: XZRect { material, ..f.object } }),
            Side::YZ(r) => Side::YZ(YZRect { material, ..r }),
            Side::FlippedYZ(f) => Side::FlippedYZ(FlipFace { object: YZRect { material, ..f.object } }),
        }
    }
}

impl<M: Clone> Boxx<M> {
    /// The box between the corners `min` and `max`, all of one material: each
    /// of its six faces is made of a clone of `material`, the last of
    /// `material` itself.
    pub fn new(min: Point, max: Point, material: M) -> (b: Self)
        ensures
            b.min == min,
            b.max == max,
            b.sides.objects@.len() == 6,
            forall|i: int|
                0 <= i < 6 ==> (#[trigger] b.sides.objects@[i]).of(material) == faces(min, max, material)[i]
                    && cloned(material, b.sides.objects@[i].material()),
    {
        let mut sides = ObjectList::new();
        sides.add(Side::XY(XYRect::new(min.x(), max.x(), min.y(), max.y(), max.z(), material.clone())));
        sides.add(
            Side::FlippedXY(
                FlipFace::new(XYRect::new(min.x(), max.x(), min.y(), max.y(), min.z(), material.clone())),
            ),
        );
        sides.add(Side::XZ(XZRect::new(min.x(), max.x(), min.z(), max.z(), max.y(), material.clone())));
        sides.add(
            Side::FlippedXZ(
                FlipFace::new(XZRect::new(min.x(), max.x(), min.z(), max.z(), min.y(), material.clone())),
            ),
        );
        sides.add(Side::YZ(YZRect::new(min.y(), max.y(), min.z(), max.z(), max.x(), material.clone())));
        sides.add(
            Side::FlippedYZ(FlipFace::new(YZRect::new(min.y(), max.y(), min.z(), max.z(), min.x(), material))),
        );
        Self { min, max, sides }
    }
}

impl<M> Boxx<M> {
    /// The nearest hit of a ray on the six faces; `test` tests one face.
    pub fn hit<'a, H, F: Fn(&'a Side<M>, Scalar, Scalar) -> Option<HitRecord<H>>>(
        &'a self,
        t_min: Scalar,
        t_max: Scalar,
        test: &F,
    ) -> (found: Option<HitRecord<H>>)
        requires
            forall|o: &Side<M>, lo: Scalar, hi: Scalar| call_requires(*test, (o, lo, hi)),
        ensures
            scanned(self.sides.objects@, self.sides.objects@.len() as int, t_min, t_max, *test, found),
    {
        self.sides.hit(t_min, t_max, test)
    }

    pub fn bounding_box(&self) -> (b: Aabb)
        ensures
            b == (Aabb { min: self.min, max: self.max }),
    {
        Aabb::new(self.min, self.max)
    }
}

} // verus!
