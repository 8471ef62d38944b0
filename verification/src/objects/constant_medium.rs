use vstd::prelude::*;
use crate::geometry::scalar::{Scalar, INFINITY_BITS, SIGN_BIT};
use crate::geometry::vector::{Point, Vector};
use crate::materials::{Isotropic, Material};
use crate::objects::hit_record::HitRecord;
use crate::objects::rect::unit;

verus! {

/// A volume of fog or smoke of even density, bounded by an object. A ray
/// inside it is scattered after a distance that is drawn at random.
pub struct ConstantMedium<O, T> {
    pub boundary: O,
    pub phase_function: Material<T>,
    pub neg_inv_density: Scalar,
}

/// How far a ray gets inside a medium, as the arithmetic brings it: the
/// distance drawn after which it is scattered, the length of its way through
/// the medium, and the parameter and the point at which it is scattered.
#[derive(Clone, Copy, Debug, PartialEq, Eq, Structural)]
pub struct Walk {
    pub hit_distance: Scalar,
    pub distance_inside_boundary: Scalar,
    pub t: Scalar,
    pub p: Point,
}

/// Minus infinity.
pub open spec fn lowest() -> Scalar {
    Scalar { bits: (INFINITY_BITS + SIGN_BIT) as u64 }
}

/// Infinity.
pub open spec fn highest() -> Scalar {
    Scalar { bits: INFINITY_BITS }
}

/// The part of the window that a ray spends inside the boundary, which it
/// enters at `entry` and leaves at `exit`: both are brought into the window,
/// nothing is left if the ray then enters no earlier than it leaves, and the
/// part begins no earlier than at the ray's origin.
pub open spec fn span(entry: Scalar, exit: Scalar, t_min: Scalar, t_max: Scalar) -> Option<(Scalar, Scalar)> {
    let from = if entry.spec_lt(t_min) {
        t_min
    } else {
        entry
    };
    let to = if exit.spec_gt(t_max) {
        t_max
    } else {
        exit
    };
    if from.spec_ge(to) {
        None
    } else if from.spec_lt(Scalar { bits: 0 }) {
        Some((Scalar { bits: 0 }, to))
    } else {
        Some((from, to))
    }
}

/// The record of a ray scattered inside the medium: at the place that the
/// walk gives, unless the distance drawn is longer than the way inside. The
/// normal is a fixed one and means nothing.
pub open spec fn scattered_inside<M>(walk: Walk, material: M) -> Option<HitRecord<M>> {
    if walk.hit_distance.spec_gt(walk.distance_inside_boundary) {
        None
    } else {
        Some(
            HitRecord {
                t: walk.t,
                u: Scalar { bits: 0 },
                v: Scalar { bits: 0 },
                p: walk.p,
                normal: unit(0),
                front_face: true,
                material,
            },
        )
    }
}

impl<O, T> ConstantMedium<O, T> {
    /// The medium inside `boundary`, of the colour of `texture`.
    /// `inv_density` is one divided by its density.
    pub fn new(boundary: O, inv_density: Scalar, texture: T) -> (m: Self)
        ensures
            m.boundary == boundary,
            m.neg_inv_density == inv_density.spec_neg(),
            m.phase_function == (Material::Isotropic { albedo: texture }),
    {
        Self { boundary, neg_inv_density: inv_density.neg(), phase_function: Isotropic::new(texture) }
    }

    /// Whether `found` can be what [`ConstantMedium::hit`] returns.
    ///
    /// The boundary is tested on the whole line for where the ray enters, and
    /// past that place for where it leaves; if either test finds nothing, so
    /// does the medium. Of the way between the two, what lies in the window
    /// is taken ([`span`]); the walk through it decides ([`scattered_inside`]).
    pub open spec fn drifts<
        'a,
        M,
        F: Fn(&'a O, Scalar, Scalar) -> Option<HitRecord<M>>,
        P: FnOnce(Scalar) -> Scalar,
        W: FnOnce(Scalar, Scalar, Scalar) -> Walk,
    >(
        self,
        t_min: Scalar,
        t_max: Scalar,
        test: F,
        past: P,
        walk: W,
        found: Option<HitRecord<&'a Material<T>>>,
    ) -> bool where O: 'a, T: 'a {
        exists|rec1: Option<HitRecord<M>>| #[trigger]
            call_ensures(test, (&self.boundary, lowest(), highest()), rec1) && match rec1 {
                None => found is None,
                Some(r1) => exists|start: Scalar, rec2: Option<HitRecord<M>>|
                    #![trigger call_ensures(test, (&self.boundary, start, highest()), rec2)]
                    call_ensures(past, (r1.t,), start) && call_ensures(
                        test,
                        (&self.boundary, start, highest()),
                        rec2,
                    ) && match rec2 {
                        None => found is None,
                        Some(r2) => match span(r1.t, r2.t, t_min, t_max) {
                            None => found is None,
                            Some(inside) => exists|way: Walk| #[trigger]
                                call_ensures(walk, (inside.0, inside.1, self.neg_inv_density), way)
                                    && found == scattered_inside(way, &self.phase_function),
                        },
                    },
            }
    }

    /// The place at which a ray is scattered inside the medium, if it is,
    /// within the window.
    ///
    /// `test` tests the boundary; `past` adds a small step to the parameter
    /// at which the ray enters; `walk` takes the ends of the way inside and
    /// the negated inverse of the density, draws the distance, and works out
    /// where the ray is scattered.
    pub fn hit<
        'a,
        M,
        F: Fn(&'a O, Scalar, Scalar) -> Option<HitRecord<M>>,
        P: FnOnce(Scalar) -> Scalar,
        W: FnOnce(Scalar, Scalar, Scalar) -> Walk,
    >(&'a self, t_min: Scalar, t_max: Scalar, test: &F, past: P, walk: W) -> (found: Option<
        HitRecord<&'a Material<T>>,
    >)
        requires
            forall|o: &O, lo: Scalar, hi: Scalar| call_requires(*test, (o, lo, hi)),
            forall|t: Scalar| call_requires(past, (t,)),
            forall|a: Scalar, b: Scalar, d: Scalar| call_requires(walk, (a, b, d)),
        ensures
            self.drifts(t_min, t_max, *test, past, walk, found),
    {
        let rec1 = test(&self.boundary, Scalar::neg_infinity(), Scalar::infinity());
        assert(call_ensures(*test, (&self.boundary, lowest(), highest()), rec1));
        match rec1 {
            Some(r1) => {
                let start = past(r1.t);
                let rec2 = test(&self.boundary, start, Scalar::infinity());
                assert(call_ensures(*test, (&self.boundary, start, highest()), rec2));
                match rec2 {
                    Some(r2) => {
                        let mut entry = r1.t;
                        let mut exit = r2.t;
                        if entry.lt(t_min) {
                            entry = t_min;
                        }
                        if exit.gt(t_max) {
                            exit = t_max;
                        }
                        if entry.ge(exit) {
                            return None;
                        }
                        if entry.lt(Scalar::zero()) {
                            entry = Scalar::zero();
                        }
                        assert(span(r1.t, r2.t, t_min, t_max) == Some((entry, exit)));
                        let way = walk(entry, exit, self.neg_inv_density);
                        assert(call_ensures(walk, (entry, exit, self.neg_inv_density), way));
                        if way.hit_distance.gt(way.distance_inside_boundary) {
                            return None;
                        }
                        let o = Scalar::zero();
                        let normal = Vector::new(Scalar::one(), o, o);
                        Some(
                            HitRecord {
                                t: way.t,
                                u: o,
                                v: o,
                                p: way.p,
                                normal,
                                front_face: true,
                                material: &self.phase_function,
                            },
                        )
                    },
                    None => None,
                }
            },
            None => None,
        }
    }
}

/// What is taken of the way inside lies in the window and ahead of the ray's
/// origin: if all four parameters are numbers, the part taken begins at or
/// after the window's start and at or after zero, and ends at or before the
/// window's end and at or before the place where the ray leaves.
pub proof fn lemma_span_in_window(entry: Scalar, exit: Scalar, t_min: Scalar, t_max: Scalar)
    requires
        !entry.spec_is_nan(),
        !exit.spec_is_nan(),
        !t_min.spec_is_nan(),
        !t_max.spec_is_nan(),
        span(entry, exit, t_min, t_max) is Some,
    ensures
        ({
            let inside = span(entry, exit, t_min, t_max)->Some_0;
            &&& t_min.spec_le(inside.0)
            &&& (Scalar { bits: 0 }).spec_le(inside.0)
            &&& inside.1.spec_le(t_max)
            &&& inside.1.spec_le(exit)
        }),
{
}

} // verus!
