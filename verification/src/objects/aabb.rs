use vstd::prelude::*;
use crate::geometry::scalar::Scalar;
use crate::geometry::vector::Point;

verus! {

/// An axis-aligned box, given by its least and its greatest corner.
#[derive(Clone, Copy, Debug, PartialEq, Eq, Structural)]
pub struct Aabb {
    pub min: Point,
    pub max: Point,
}

/// What a ray's line does on one axis of a box: the reciprocal of the ray's
/// direction there, and the ray parameters at which the line meets the plane
/// of the box's least face (`t0`) and of its greatest face (`t1`).
#[derive(Clone, Copy, Debug, PartialEq, Eq, Structural)]
pub struct Slab {
    pub inv_d: Scalar,
    pub t0: Scalar,
    pub t1: Scalar,
}

/// An interval of ray parameters, as the slab test carries it along.
#[derive(Clone, Copy, Debug, PartialEq, Eq, Structural)]
pub struct Window {
    pub t_min: Scalar,
    pub t_max: Scalar,
}

impl Slab {
    /// Where the ray enters the slab: `t1` if it runs against the axis.
    pub open spec fn near(self) -> Scalar {
        if self.inv_d.spec_lt(Scalar { bits: 0 }) {
            self.t1
        } else {
            self.t0
        }
    }

    /// Where the ray leaves the slab: `t0` if it runs against the axis.
    pub open spec fn far(self) -> Scalar {
        if self.inv_d.spec_lt(Scalar { bits: 0 }) {
            self.t0
        } else {
            self.t1
        }
    }
}

impl Window {
    /// The window cut down to the part that lies in the slab.
    pub open spec fn clip(self, slab: Slab) -> Window {
        Window {
            t_min: slab.near().spec_max(self.t_min),
            t_max: slab.far().spec_min(self.t_max),
        }
    }

    /// Whether nothing is left between the two ends.
    pub open spec fn shut(self) -> bool {
        self.t_max.spec_le(self.t_min)
    }
}

impl Aabb {
    /// A valid box: on every axis the least corner is not above the greatest.
    pub open spec fn valid(self) -> bool {
        forall|axis: int| 0 <= axis < 3 ==> (#[trigger] self.min.at(axis)).spec_le(self.max.at(axis))
    }

    /// Whether `inner` lies within this box, faces included.
    pub open spec fn encloses(self, inner: Aabb) -> bool {
        forall|axis: int|
            0 <= axis < 3 ==> (#[trigger] self.min.at(axis)).spec_le(inner.min.at(axis))
                && inner.max.at(axis).spec_le(self.max.at(axis))
    }

    /// Whether the point lies within this box, faces included.
    pub open spec fn contains(self, p: Point) -> bool {
        forall|axis: int|
            0 <= axis < 3 ==> (#[trigger] self.min.at(axis)).spec_le(p.at(axis)) && p.at(axis).spec_le(
                self.max.at(axis),
            )
    }

    /// The box that [`Aabb::surrounding_box`] returns.
    pub open spec fn union(a: Aabb, b: Aabb) -> Aabb {
        Aabb {
            min: Point {
                x: a.min.x.spec_min(b.min.x),
                y: a.min.y.spec_min(b.min.y),
                z: a.min.z.spec_min(b.min.z),
            },
            max: Point {
                x: a.max.x.spec_max(b.max.x),
                y: a.max.y.spec_max(b.max.y),
                z: a.max.z.spec_max(b.max.z),
            },
        }
    }

    /// The box between two opposite corners, whichever of them is the lesser
    /// on an axis: on each axis it reaches from the smaller of the two
    /// coordinates to the larger.
    pub open spec fn spanning(a: Point, b: Point) -> Aabb {
        Aabb {
            min: Point { x: a.x.spec_min(b.x), y: a.y.spec_min(b.y), z: a.z.spec_min(b.z) },
            max: Point { x: a.x.spec_max(b.x), y: a.y.spec_max(b.y), z: a.z.spec_max(b.z) },
        }
    }

    /// The latest of the window's start and the three entries into the slabs,
    /// by rank.
    pub open spec fn entry(slabs: [Slab; 3], t_min: Scalar) -> int {
        vstd::math::max(
            vstd::math::max(slabs[0].near()@, slabs[1].near()@),
            vstd::math::max(slabs[2].near()@, t_min@),
        )
    }

    /// The earliest of the window's end and the three exits from the slabs,
    /// by rank.
    pub open spec fn exit(slabs: [Slab; 3], t_max: Scalar) -> int {
        vstd::math::min(
            vstd::math::min(slabs[0].far()@, slabs[1].far()@),
            vstd::math::min(slabs[2].far()@, t_max@),
        )
    }

    /// The window `w` after the first `n` slabs have cut it.
    pub open spec fn cut(slabs: [Slab; 3], w: Window, n: int) -> Window
        decreases n,
    {
        if n <= 0 {
            w
        } else {
            Aabb::cut(slabs, w, n - 1).clip(slabs[n - 1])
        }
    }

    /// What [`Aabb::hit`] decides: the three slabs cut the window in turn, and
    /// the ray passes only if every cut leaves something.
    pub open spec fn meets(slabs: [Slab; 3], t_min: Scalar, t_max: Scalar) -> bool {
        forall|n: int| 1 <= n <= 3 ==> !(#[trigger] Aabb::cut(slabs, Window { t_min, t_max }, n)).shut()
    }

    pub fn new(min: Point, max: Point) -> (b: Aabb)
        ensures
            b == (Aabb { min, max }),
    {
        Aabb { min, max }
    }

    /// The box between two opposite corners, in whichever order they come.
    pub fn between(a: Point, b: Point) -> (r: Aabb)
        ensures
            r == Aabb::spanning(a, b),
    {
        let small = Point::new(a.x().min(b.x()), a.y().min(b.y()), a.z().min(b.z()));
        let big = Point::new(a.x().max(b.x()), a.y().max(b.y()), a.z().max(b.z()));
        Aabb::new(small, big)
    }

    /// The smallest box around both: on each axis the smaller of the least
    /// corners and the larger of the greatest.
    pub fn surrounding_box(a: &Aabb, b: &Aabb) -> (r: Aabb)
        ensures
            r == Aabb::union(*a, *b),
    {
        let small = Point::new(
            a.min.x().min(b.min.x()),
            a.min.y().min(b.min.y()),
            a.min.z().min(b.min.z()),
        );
        let big = Point::new(
            a.max.x().max(b.max.x()),
            a.max.y().max(b.max.y()),
            a.max.z().max(b.max.z()),
        );
        Aabb::new(small, big)
    }

    /// The slab test: whether a ray, known by what it does on each axis of the
    /// box, passes through the box at a parameter strictly between `t_min` and
    /// `t_max`.
    pub fn hit(slabs: &[Slab; 3], t_min: Scalar, t_max: Scalar) -> (b: bool)
        ensures
            b == Aabb::meets(*slabs, t_min, t_max),
    {
        let ghost w = Window { t_min, t_max };
        let mut lo = t_min;
        let mut hi = t_max;
        let mut a: usize = 0;
        while a < 3
            invariant
                a <= 3,
                w == (Window { t_min, t_max }),
                Aabb::cut(*slabs, w, a as int) == (Window { t_min: lo, t_max: hi }),
                forall|n: int| 1 <= n <= a ==> !(#[trigger] Aabb::cut(*slabs, w, n)).shut(),
            decreases 3 - a,
        {
            let slab = slabs[a];
            let mut t0 = slab.t0;
            let mut t1 = slab.t1;
            if slab.inv_d.lt(Scalar::zero()) {
                t0 = slab.t1;
                t1 = slab.t0;
            }
            lo = t0.max(lo);
            hi = t1.min(hi);
            assert(Aabb::cut(*slabs, w, a as int + 1) == (Window { t_min: lo, t_max: hi }));
            if hi.le(lo) {
                assert(Aabb::cut(*slabs, w, a as int + 1).shut());
                return false;
            }
            a = a + 1;
        }
        true
    }
}

/// A ray that stays outside one slab for the whole window misses the box:
/// if on some axis it leaves the slab no later than `t_min`, or enters it no
/// earlier than `t_max`, the slab test fails.
pub proof fn lemma_outside_a_slab_misses(slabs: [Slab; 3], t_min: Scalar, t_max: Scalar, axis: int)
    requires
        0 <= axis < 3,
        !t_min.spec_is_nan(),
        !t_max.spec_is_nan(),
        slabs[axis].far().spec_le(t_min) || t_max.spec_le(slabs[axis].near()),
    ensures
        !Aabb::meets(slabs, t_min, t_max),
{
    reveal_with_fuel(Aabb::cut, 4);
    let w = Window { t_min, t_max };
    assert(Aabb::cut(slabs, w, 1) == w.clip(slabs[0]));
    assert(Aabb::cut(slabs, w, 2) == w.clip(slabs[0]).clip(slabs[1]));
    assert(Aabb::cut(slabs, w, 3) == w.clip(slabs[0]).clip(slabs[1]).clip(slabs[2]));
    assert(Aabb::cut(slabs, w, axis + 1).shut());
}

/// A ray that starts inside the box passes the slab test, and enters no later
/// than at its origin: if on every axis it has entered the slab by parameter
/// zero and leaves it after zero, and zero lies in the window at its lower end
/// or above it, the test succeeds and what is left of the window begins at or
/// before zero.
pub proof fn lemma_origin_inside_hits(slabs: [Slab; 3], t_min: Scalar, t_max: Scalar)
    requires
        forall|axis: int|
            0 <= axis < 3 ==> (#[trigger] slabs[axis]).near().spec_le(Scalar { bits: 0 }) && (Scalar {
                bits: 0,
            }).spec_lt(slabs[axis].far()),
        t_min.spec_le(Scalar { bits: 0 }),
        (Scalar { bits: 0 }).spec_lt(t_max),
    ensures
        Aabb::meets(slabs, t_min, t_max),
        Aabb::cut(slabs, Window { t_min, t_max }, 3).t_min.spec_le(Scalar { bits: 0 }),
        (Scalar { bits: 0 }).spec_lt(Aabb::cut(slabs, Window { t_min, t_max }, 3).t_max),
{
    reveal_with_fuel(Aabb::cut, 4);
    let w = Window { t_min, t_max };
    let s0 = slabs[0];
    let s1 = slabs[1];
    let s2 = slabs[2];
    assert(Aabb::cut(slabs, w, 1) == w.clip(s0));
    assert(Aabb::cut(slabs, w, 2) == w.clip(s0).clip(s1));
    assert(Aabb::cut(slabs, w, 3) == w.clip(s0).clip(s1).clip(s2));
}

/// Of two numbers the smaller is at most each of them, the larger at least
/// each of them, both are numbers, and where the first is below the second
/// they are the first and the second.
proof fn lemma_min_max(x: Scalar, y: Scalar)
    requires
        !x.spec_is_nan(),
        !y.spec_is_nan(),
    ensures
        !x.spec_min(y).spec_is_nan(),
        !x.spec_max(y).spec_is_nan(),
        x.spec_min(y).spec_le(x),
        x.spec_min(y).spec_le(y),
        x.spec_le(x.spec_max(y)),
        y.spec_le(x.spec_max(y)),
        x.spec_min(y).spec_le(x.spec_max(y)),
        x@ < y@ ==> x.spec_min(y) == x && x.spec_max(y) == y,
{
}

/// The box between two corners that are numbers is valid and holds both, in
/// whichever order they come.
pub proof fn lemma_spanning_valid(a: Point, b: Point)
    requires
        a.is_numbers(),
        b.is_numbers(),
    ensures
        Aabb::spanning(a, b).valid(),
        Aabb::spanning(a, b).contains(a),
        Aabb::spanning(a, b).contains(b),
        Aabb::spanning(a, b).min.is_numbers(),
        Aabb::spanning(a, b).max.is_numbers(),
{
    lemma_min_max(a.x, b.x);
    lemma_min_max(a.y, b.y);
    lemma_min_max(a.z, b.z);
    let r = Aabb::spanning(a, b);
    assert forall|axis: int| 0 <= axis < 3 implies (#[trigger] r.min.at(axis)).spec_le(r.max.at(axis)) by {
        if axis == 0 {
        } else if axis == 1 {
        } else {
        }
    }
    assert forall|axis: int| 0 <= axis < 3 implies (#[trigger] r.min.at(axis)).spec_le(a.at(axis)) && a.at(
        axis,
    ).spec_le(r.max.at(axis)) by {
        if axis == 0 {
        } else if axis == 1 {
        } else {
        }
    }
    assert forall|axis: int| 0 <= axis < 3 implies (#[trigger] r.min.at(axis)).spec_le(b.at(axis)) && b.at(
        axis,
    ).spec_le(r.max.at(axis)) by {
        if axis == 0 {
        } else if axis == 1 {
        } else {
        }
    }
}

/// Between a lesser and a greater corner lies the box of just these corners.
pub proof fn lemma_spanning_in_order(a: Point, b: Point)
    requires
        a.is_numbers(),
        b.is_numbers(),
        a.x@ < b.x@,
        a.y@ < b.y@,
        a.z@ < b.z@,
    ensures
        Aabb::spanning(a, b) == (Aabb { min: a, max: b }),
        Aabb::spanning(b, a) == (Aabb { min: a, max: b }),
{
    lemma_min_max(a.x, b.x);
    lemma_min_max(a.y, b.y);
    lemma_min_max(a.z, b.z);
}

/// What a cut does to a window whose ends are numbers, by a slab whose ends
/// are numbers: the start moves up to the entry into the slab, the end down
/// to the exit from it, and nothing is left if the end is then not above the
/// start.
proof fn lemma_clip(w: Window, slab: Slab)
    requires
        !w.t_min.spec_is_nan(),
        !w.t_max.spec_is_nan(),
        !slab.t0.spec_is_nan(),
        !slab.t1.spec_is_nan(),
    ensures
        !w.clip(slab).t_min.spec_is_nan(),
        !w.clip(slab).t_max.spec_is_nan(),
        w.clip(slab).t_min@ == vstd::math::max(slab.near()@, w.t_min@),
        w.clip(slab).t_max@ == vstd::math::min(slab.far()@, w.t_max@),
        w.clip(slab).shut() <==> w.clip(slab).t_max@ <= w.clip(slab).t_min@,
{
}

/// The slab test succeeds exactly where the ray is inside all three slabs at
/// once for some part of the window. With every parameter a number: the test
/// succeeds if and only if the latest entry into a slab, or the window's
/// start if that is later, comes strictly before the earliest exit from a
/// slab, or the window's end if that is earlier. So a ray that is in each
/// slab at some time, but never in all three together, misses.
pub proof fn lemma_meets_iff_common_window(slabs: [Slab; 3], t_min: Scalar, t_max: Scalar)
    requires
        !t_min.spec_is_nan(),
        !t_max.spec_is_nan(),
        forall|axis: int|
            0 <= axis < 3 ==> !(#[trigger] slabs[axis]).t0.spec_is_nan() && !slabs[axis].t1.spec_is_nan(),
    ensures
        Aabb::meets(slabs, t_min, t_max) <==> Aabb::entry(slabs, t_min) < Aabb::exit(slabs, t_max),
        Aabb::cut(slabs, Window { t_min, t_max }, 3).t_min@ == Aabb::entry(slabs, t_min),
        Aabb::cut(slabs, Window { t_min, t_max }, 3).t_max@ == Aabb::exit(slabs, t_max),
{
    reveal_with_fuel(Aabb::cut, 4);
    let w = Window { t_min, t_max };
    let s0 = slabs[0];
    let s1 = slabs[1];
    let s2 = slabs[2];
    assert(!s0.t0.spec_is_nan() && !s0.t1.spec_is_nan());
    assert(!s1.t0.spec_is_nan() && !s1.t1.spec_is_nan());
    assert(!s2.t0.spec_is_nan() && !s2.t1.spec_is_nan());
    let w1 = w.clip(s0);
    let w2 = w1.clip(s1);
    let w3 = w2.clip(s2);
    assert(Aabb::cut(slabs, w, 1) == w1);
    assert(Aabb::cut(slabs, w, 2) == w2);
    assert(Aabb::cut(slabs, w, 3) == w3);
    lemma_clip(w, s0);
    lemma_clip(w1, s1);
    lemma_clip(w2, s2);
    assert(w1.t_min@ <= w2.t_min@ <= w3.t_min@);
    assert(w3.t_max@ <= w2.t_max@ <= w1.t_max@);
    if w3.t_min@ < w3.t_max@ {
        assert forall|n: int| 1 <= n <= 3 implies !(#[trigger] Aabb::cut(slabs, w, n)).shut() by {
            if n == 1 {
            } else if n == 2 {
            } else {
            }
        }
    } else {
        assert(Aabb::cut(slabs, w, 3).shut());
    }
}

/// The surrounding box holds both boxes, provided their corners are numbers.
pub proof fn lemma_union_encloses(a: Aabb, b: Aabb)
    requires
        a.min.is_numbers(),
        a.max.is_numbers(),
        b.min.is_numbers(),
        b.max.is_numbers(),
    ensures
        Aabb::union(a, b).encloses(a),
        Aabb::union(a, b).encloses(b),
        Aabb::union(a, b).min.is_numbers(),
        Aabb::union(a, b).max.is_numbers(),
{
}

/// The surrounding box is the least box that holds both: any box that holds
/// both holds it.
pub proof fn lemma_union_least(a: Aabb, b: Aabb, c: Aabb)
    requires
        c.encloses(a),
        c.encloses(b),
    ensures
        c.encloses(Aabb::union(a, b)),
{
    let u = Aabb::union(a, b);
    assert forall|axis: int| 0 <= axis < 3 implies (#[trigger] c.min.at(axis)).spec_le(u.min.at(axis))
        && u.max.at(axis).spec_le(c.max.at(axis)) by {
        assert(c.min.at(axis).spec_le(a.min.at(axis)));
        assert(c.min.at(axis).spec_le(b.min.at(axis)));
    }
}

/// Enclosure is transitive.
pub proof fn lemma_encloses_transitive(a: Aabb, b: Aabb, c: Aabb)
    requires
        a.encloses(b),
        b.encloses(c),
    ensures
        a.encloses(c),
{
    assert forall|axis: int| 0 <= axis < 3 implies (#[trigger] a.min.at(axis)).spec_le(c.min.at(axis))
        && c.max.at(axis).spec_le(a.max.at(axis)) by {
        assert(a.min.at(axis).spec_le(b.min.at(axis)));
        assert(b.min.at(axis).spec_le(c.min.at(axis)));
    }
}

/// The surrounding box of two valid boxes is valid.
pub proof fn lemma_union_valid(a: Aabb, b: Aabb)
    requires
        a.valid(),
        b.valid(),
    ensures
        Aabb::union(a, b).valid(),
{
    let u = Aabb::union(a, b);
    assert forall|axis: int| 0 <= axis < 3 implies (#[trigger] u.min.at(axis)).spec_le(u.max.at(axis)) by {
        assert(a.min.at(axis).spec_le(a.max.at(axis)));
        assert(b.min.at(axis).spec_le(b.max.at(axis)));
    }
}

} // verus!
