use vstd::prelude::*;
use crate::geometry::scalar::Scalar;
use crate::geometry::vector::{Color, Point, Vector};
use crate::objects::hit_record::HitRecord;

verus! {

/// The bits of 0.001, the parameter before which a ray sees nothing, so that
/// it does not meet again the surface that it leaves.
pub const NEAR_BITS: u64 = 0x3F50_624D_D2F1_A9FC;

/// A half-line: the points `origin + t * direction`, travelled at `time`.
#[derive(Clone, Copy, Debug, PartialEq, Eq, Structural)]
pub struct Ray {
    pub origin: Point,
    pub direction: Vector,
    pub time: Scalar,
}

/// What a surface does with the light that reaches it: what it gives off
/// itself, and, unless it absorbs the ray, how it weakens the light that
/// comes along the scattered ray.
#[derive(Clone, Copy, Debug)]
pub struct Shading {
    pub emitted: Color,
    pub scattered: Option<(Color, Ray)>,
}

/// No light at all.
pub open spec fn black() -> Color {
    Color { x: Scalar { bits: 0 }, y: Scalar { bits: 0 }, z: Scalar { bits: 0 } }
}

/// The lower end of the window in which a ray looks for a surface.
pub open spec fn near() -> Scalar {
    Scalar { bits: NEAR_BITS }
}

/// The upper end of that window: infinity.
pub open spec fn far() -> Scalar {
    Scalar { bits: crate::geometry::scalar::INFINITY_BITS }
}

/// Whether `color` can be what [`Ray::color`] returns for `ray`.
///
/// With no depth left the colour is black. Else the ray looks for the nearest
/// surface between 0.001 and infinity: if there is none, the colour is the
/// background; if the surface absorbs the ray, it is what the surface emits;
/// and if the surface scatters it, it is what `blend` makes of the emitted
/// light, the attenuation, and a colour that the scattered ray can have with
/// one less of depth.
pub open spec fn traced<
    M,
    H: Fn(&Ray, Scalar, Scalar) -> Option<HitRecord<M>>,
    S: Fn(&Ray, &HitRecord<M>) -> Shading,
    B: Fn(Color, Color, Color) -> Color,
>(ray: Ray, background: Color, depth: i8, hit: H, shade: S, blend: B, color: Color) -> bool
    decreases depth,
{
    if depth <= 0 {
        color == black()
    } else {
        exists|found: Option<HitRecord<M>>| #[trigger]
            call_ensures(hit, (&ray, near(), far()), found) && match found {
                None => color == background,
                Some(rec) => exists|shading: Shading| #[trigger]
                    call_ensures(shade, (&ray, &rec), shading) && match shading.scattered {
                        None => color == shading.emitted,
                        Some(next) => exists|incoming: Color| #[trigger]
                            call_ensures(blend, (shading.emitted, next.0, incoming), color) && traced(
                                next.1,
                                background,
                                (depth - 1) as i8,
                                hit,
                                shade,
                                blend,
                                incoming,
                            ),
                    },
            }
    }
}

impl Ray {
    pub fn new(origin: Point, direction: Vector, time: Scalar) -> (ray: Ray)
        ensures
            ray == (Ray { origin, direction, time }),
    {
        Ray { origin, direction, time }
    }

    /// The light that comes back along this ray, followed through at most
    /// `depth` surfaces.
    ///
    /// `hit` finds the nearest surface that a ray meets inside a window,
    /// `shade` tells what that surface emits and how it scatters the ray, and
    /// `blend` computes `emitted + attenuation * incoming`.
    pub fn color<
        M,
        H: Fn(&Ray, Scalar, Scalar) -> Option<HitRecord<M>>,
        S: Fn(&Ray, &HitRecord<M>) -> Shading,
        B: Fn(Color, Color, Color) -> Color,
    >(&self, background: Color, depth: i8, hit: &H, shade: &S, blend: &B) -> (color: Color)
        requires
            forall|r: &Ray, lo: Scalar, hi: Scalar| call_requires(*hit, (r, lo, hi)),
            forall|r: &Ray, rec: &HitRecord<M>| call_requires(*shade, (r, rec)),
            forall|e: Color, a: Color, c: Color| call_requires(*blend, (e, a, c)),
        ensures
            traced(*self, background, depth, *hit, *shade, *blend, color),
            depth <= 0 ==> color == black(),
        decreases depth,
    {
        if depth <= 0 {
            return Color::from(Scalar::zero());
        }
        let found = hit(self, Scalar::from_bits(NEAR_BITS), Scalar::infinity());
        match found {
            Some(rec) => {
                let shading = shade(self, &rec);
                match shading.scattered {
                    Some((attenuation, scattered)) => {
                        let incoming = scattered.color(background, depth - 1, hit, shade, blend);
                        let color = blend(shading.emitted, attenuation, incoming);
                        assert(traced(scattered, background, (depth - 1) as i8, *hit, *shade, *blend, incoming));
                        assert(call_ensures(*shade, (self, &rec), shading));
                        assert(call_ensures(*hit, (self, near(), far()), found));
                        assert(call_ensures(*blend, (shading.emitted, attenuation, incoming), color));
                        assert(shading.scattered == Some((attenuation, scattered)));
                        color
                    },
                    None => {
                        assert(call_ensures(*shade, (self, &rec), shading));
                        assert(call_ensures(*hit, (self, near(), far()), found));
                        shading.emitted
                    },
                }
            },
            None => {
                assert(call_ensures(*hit, (self, near(), far()), found));
                background
            },
        }
    }
}

/// Whether each part of `c` lies between zero and the same part of `bound`.
pub open spec fn within(c: Color, bound: Color) -> bool {
    forall|axis: int|
        0 <= axis < 3 ==> (Scalar { bits: 0 }).spec_le(#[trigger] c.at(axis)) && c.at(axis).spec_le(
            bound.at(axis),
        )
}

/// Whether every surface that `shade` can report gives off no light and, if
/// it scatters the ray, weakens the light by a colour with no part below zero
/// or above one.
pub open spec fn dull<M, S: Fn(&Ray, &HitRecord<M>) -> Shading>(shade: S) -> bool {
    forall|ray: &Ray, rec: &HitRecord<M>, shading: Shading| #[trigger]
        call_ensures(shade, (ray, rec), shading) ==> shading.emitted == black() && match shading.scattered {
            Some(next) => within(next.0, Color { x: one_scalar(), y: one_scalar(), z: one_scalar() }),
            None => true,
        }
}

/// The number one.
pub open spec fn one_scalar() -> Scalar {
    Scalar { bits: crate::geometry::scalar::ONE_BITS }
}

/// Whether `blend` adds no light: whenever nothing is emitted, the
/// attenuation has no part below zero or above one, and the incoming light
/// lies within `bound`, so does what `blend` makes of them. Sums and products
/// of doubles have this property.
pub open spec fn adds_no_light<B: Fn(Color, Color, Color) -> Color>(blend: B, bound: Color) -> bool {
    forall|attenuation: Color, incoming: Color, out: Color| #[trigger]
        call_ensures(blend, (black(), attenuation, incoming), out) && within(
            attenuation,
            Color { x: one_scalar(), y: one_scalar(), z: one_scalar() },
        ) && within(incoming, bound) ==> within(out, bound)
}

/// No path creates light. Where no surface emits, every surface weakens by a
/// colour between zero and one, and blending adds no light, the colour of a
/// ray lies between black and the background, in every part and for every
/// depth.
pub proof fn lemma_no_light_created<
    M,
    H: Fn(&Ray, Scalar, Scalar) -> Option<HitRecord<M>>,
    S: Fn(&Ray, &HitRecord<M>) -> Shading,
    B: Fn(Color, Color, Color) -> Color,
>(ray: Ray, background: Color, depth: i8, hit: H, shade: S, blend: B, color: Color)
    requires
        traced(ray, background, depth, hit, shade, blend, color),
        within(background, background),
        dull(shade),
        adds_no_light(blend, background),
    ensures
        within(color, background),
    decreases depth,
{
    assert(within(black(), background)) by {
        assert forall|axis: int| 0 <= axis < 3 implies (Scalar { bits: 0 }).spec_le(
            #[trigger] black().at(axis),
        ) && black().at(axis).spec_le(background.at(axis)) by {
            assert((Scalar { bits: 0 }).spec_le(background.at(axis)));
        }
    }
    if depth > 0 {
        let found = choose|found: Option<HitRecord<M>>| #[trigger]
            call_ensures(hit, (&ray, near(), far()), found) && match found {
                None => color == background,
                Some(rec) => exists|shading: Shading| #[trigger]
                    call_ensures(shade, (&ray, &rec), shading) && match shading.scattered {
                        None => color == shading.emitted,
                        Some(next) => exists|incoming: Color| #[trigger]
                            call_ensures(blend, (shading.emitted, next.0, incoming), color) && traced(
                                next.1,
                                background,
                                (depth - 1) as i8,
                                hit,
                                shade,
                                blend,
                                incoming,
                            ),
                    },
            };
        match found {
            None => {},
            Some(rec) => {
                let shading = choose|shading: Shading| #[trigger]
                    call_ensures(shade, (&ray, &rec), shading) && match shading.scattered {
                        None => color == shading.emitted,
                        Some(next) => exists|incoming: Color| #[trigger]
                            call_ensures(blend, (shading.emitted, next.0, incoming), color) && traced(
                                next.1,
                                background,
                                (depth - 1) as i8,
                                hit,
                                shade,
                                blend,
                                incoming,
                            ),
                    };
                match shading.scattered {
                    None => {},
                    Some(next) => {
                        let incoming = choose|incoming: Color| #[trigger]
                            call_ensures(blend, (shading.emitted, next.0, incoming), color) && traced(
                                next.1,
                                background,
                                (depth - 1) as i8,
                                hit,
                                shade,
                                blend,
                                incoming,
                            );
                        lemma_no_light_created(
                            next.1,
                            background,
                            (depth - 1) as i8,
                            hit,
                            shade,
                            blend,
                            incoming,
                        );
                    },
                }
            },
        }
    }
}

} // verus!
