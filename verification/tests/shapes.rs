use raytracer::geometry::{Point, Scalar, Vector};
use raytracer::materials::Material;
use raytracer::objects::boxx::Side;
use raytracer::objects::constant_medium::Walk;
use raytracer::objects::rect::Landing;
use raytracer::objects::rotate_y::Turned;
use raytracer::objects::sphere::{choose_crossing, hit_sphere, Crossing};
use raytracer::objects::{
    Aabb, Boxx, ConstantMedium, FlipFace, HitRecord, MovingSphere, RotateY, Sphere, Translate, XYRect, XZRect,
    YZRect,
};

fn s(x: f64) -> Scalar {
    Scalar::from_bits(x.to_bits())
}

fn f(x: Scalar) -> f64 {
    f64::from_bits(x.to_bits())
}

fn v(x: f64, y: f64, z: f64) -> Vector {
    Vector::new(s(x), s(y), s(z))
}

fn triple(p: Vector) -> (f64, f64, f64) {
    (f(p.x()), f(p.y()), f(p.z()))
}

fn dot(a: [f64; 3], b: [f64; 3]) -> f64 {
    a[0] * b[0] + a[1] * b[1] + a[2] * b[2]
}

/// The arithmetic of a ray and a sphere: the discriminant and both crossings.
fn crossings(center: [f64; 3], radius: f64, origin: [f64; 3], direction: [f64; 3]) -> (Scalar, Crossing, Crossing) {
    let oc = [origin[0] - center[0], origin[1] - center[1], origin[2] - center[2]];
    let a = dot(direction, direction);
    let half_b = dot(oc, direction);
    let c = dot(oc, oc) - radius * radius;
    let discriminant = half_b * half_b - a * c;
    let root = discriminant.sqrt();
    let at = |t: f64| {
        let p = [origin[0] + t * direction[0], origin[1] + t * direction[1], origin[2] + t * direction[2]];
        let n = [(p[0] - center[0]) / radius, (p[1] - center[1]) / radius, (p[2] - center[2]) / radius];
        Crossing { t: s(t), p: v(p[0], p[1], p[2]), outward_normal: v(n[0], n[1], n[2]), u: s(0.25), v: s(0.75), dot: s(dot(direction, n)) }
    };
    (s(discriminant), at((-half_b - root) / a), at((-half_b + root) / a))
}

fn some_hit(t: f64) -> HitRecord<u8> {
    HitRecord { p: v(1.0, 2.0, 3.0), normal: v(0.0, 1.0, 0.0), material: 9, t: s(t), u: s(0.5), v: s(0.25), front_face: true }
}

#[test]
fn sphere_is_hit_in_front_and_behind() {
    for &r in [0.5, 1.0, 2.0, 4.5].iter() {
        let ball = Sphere::new(v(0.0, 0.0, 0.0), s(r), 'm');
        let (d, near, far) = crossings([0.0, 0.0, 0.0], r, [0.0, 0.0, 5.0], [0.0, 0.0, -1.0]);
        let front = ball.hit(d, near, far, s(0.001), s(f64::INFINITY)).unwrap();
        assert_eq!(f(front.t), 5.0 - r);
        assert_eq!(triple(front.normal), (0.0, 0.0, 1.0));
        assert!(front.front_face);
        assert_eq!(triple(front.p), (0.0, 0.0, r));
        assert_eq!(*front.material, 'm');
        assert_eq!((f(front.u), f(front.v)), (0.25, 0.75));
        let back = ball.hit(d, near, far, s(5.0 - r), s(f64::INFINITY)).unwrap();
        assert_eq!(f(back.t), 5.0 + r);
        assert!(!back.front_face);
        assert_eq!(triple(back.normal), (0.0, 0.0, 1.0));
        assert_eq!(triple(back.p), (0.0, 0.0, -r));
        assert!(ball.hit(d, near, far, s(5.0 + r), s(f64::INFINITY)).is_none());
        assert!(ball.hit(d, near, far, s(0.001), s(5.0 - r)).is_none());
    }
}

#[test]
fn sphere_is_missed_beside_and_at_a_touch() {
    let ball = Sphere::new(v(0.0, 0.0, 0.0), s(1.0), ());
    let (d, near, far) = crossings([0.0, 0.0, 0.0], 1.0, [3.0, 0.0, 5.0], [0.0, 0.0, -1.0]);
    assert!(f(d) < 0.0);
    assert!(!hit_sphere(d));
    assert!(ball.hit(d, near, far, s(0.001), s(f64::INFINITY)).is_none());
    let (d, near, far) = crossings([0.0, 0.0, 0.0], 1.0, [1.0, 0.0, 5.0], [0.0, 0.0, -1.0]);
    assert_eq!(f(d), 0.0);
    assert!(!hit_sphere(d));
    assert_eq!(f(near.t), 5.0);
    assert!(ball.hit(d, near, far, s(0.001), s(f64::INFINITY)).is_none());
    assert!(hit_sphere(s(1.0e-300)));
    assert!(!hit_sphere(s(f64::NAN)));
    assert_eq!(choose_crossing(s(1.0), near, far, s(0.0), s(10.0)), Some(near));
}

#[test]
fn hollow_sphere_turns_its_normal() {
    let shell = Sphere::new(v(0.0, 0.0, 0.0), s(-2.0), ());
    let (d, near, far) = crossings([0.0, 0.0, 0.0], -2.0, [0.0, 0.0, 5.0], [0.0, 0.0, -1.0]);
    let hit = shell.hit(d, near, far, s(0.001), s(f64::INFINITY)).unwrap();
    assert_eq!(f(hit.t), 3.0);
    assert!(!hit.front_face);
    assert_eq!(triple(hit.normal), (0.0, 0.0, 1.0));
    assert_eq!(f(shell.radius), -2.0);
    let c = [1.0f64, 2.0f64, 3.0f64];
    let r = -2.0f64;
    let around = shell.bounding_box(v(c[0] - r, c[1] - r, c[2] - r), v(c[0] + r, c[1] + r, c[2] + r));
    assert_eq!(around, Aabb::new(v(-1.0, 0.0, 1.0), v(3.0, 4.0, 5.0)));
    let solid = Sphere::new(v(1.0, 2.0, 3.0), s(2.0), ());
    assert_eq!(solid.bounding_box(v(-1.0, 0.0, 1.0), v(3.0, 4.0, 5.0)), around);
}

#[test]
fn moving_sphere_has_no_texture_coordinates() {
    let ball = MovingSphere::new(v(0.0, 0.0, 0.0), v(0.0, 1.0, 0.0), s(0.0), s(1.0), s(0.5), 3u8);
    let (d, near, far) = crossings([0.0, 0.5, 0.0], 0.5, [0.0, 0.5, 5.0], [0.0, 0.0, -1.0]);
    let hit = ball.hit(d, near, far, s(0.001), s(f64::INFINITY)).unwrap();
    assert_eq!(f(hit.t), 4.5);
    assert_eq!((f(hit.u), f(hit.v)), (0.0, 0.0));
    assert!(hit.front_face);
    assert_eq!(*hit.material, 3);
    let far_hit = ball.hit(d, near, far, s(4.5), s(f64::INFINITY)).unwrap();
    assert_eq!(f(far_hit.t), 5.5);
    assert!(ball.hit(s(-1.0), near, far, s(0.001), s(f64::INFINITY)).is_none());
    let around = Aabb::new(v(-0.5, -0.5, -0.5), v(0.5, 1.5, 0.5));
    assert_eq!(ball.bounding_box(v(-0.5, -0.5, -0.5), v(0.5, 0.5, 0.5), v(-0.5, 0.5, -0.5), v(0.5, 1.5, 0.5)), around);
    assert_eq!(ball.bounding_box(v(0.5, 0.5, 0.5), v(-0.5, -0.5, -0.5), v(0.5, 1.5, 0.5), v(-0.5, 0.5, -0.5)), around);
}

#[test]
fn rectangle_is_hit_within_its_edges() {
    let wall = XYRect::new(s(3.0), s(5.0), s(1.0), s(3.0), s(-2.0), 'w');
    let land = |x: f64, y: f64, t: f64, d: f64| Landing { t: s(t), p: v(x, y, -2.0), a: s(x), b: s(y), u: s((x - 3.0) / 2.0), v: s((y - 1.0) / 2.0), dot: s(d) };
    let hit = wall.hit(land(4.0, 2.0, 7.0, -1.0), s(0.001), s(f64::INFINITY)).unwrap();
    assert_eq!(f(hit.t), 7.0);
    assert_eq!(triple(hit.normal), (0.0, 0.0, 1.0));
    assert!(hit.front_face);
    assert_eq!((f(hit.u), f(hit.v)), (0.5, 0.5));
    assert_eq!(triple(hit.p), (4.0, 2.0, -2.0));
    assert_eq!(*hit.material, 'w');
    let behind = wall.hit(land(4.0, 2.0, 7.0, 1.0), s(0.001), s(f64::INFINITY)).unwrap();
    assert!(!behind.front_face);
    assert_eq!(behind.normal, v(-0.0, -0.0, -1.0));
    assert!(wall.hit(land(3.0, 1.0, 7.0, -1.0), s(0.001), s(f64::INFINITY)).is_some());
    assert!(wall.hit(land(5.0, 3.0, 7.0, -1.0), s(6.999), s(7.001)).is_some());
    assert!(wall.hit(land(4.0, 2.0, 7.0, -1.0), s(7.0), s(f64::INFINITY)).is_none());
    assert!(wall.hit(land(4.0, 2.0, 7.0, -1.0), s(0.001), s(7.0)).is_none());
    assert!(wall.hit(land(4.0, 2.0, 7.0, -1.0), s(7.0), s(7.0)).is_none());
    assert!(wall.hit(land(2.999, 2.0, 7.0, -1.0), s(0.001), s(f64::INFINITY)).is_none());
    assert!(wall.hit(land(5.001, 2.0, 7.0, -1.0), s(0.001), s(f64::INFINITY)).is_none());
    assert!(wall.hit(land(4.0, 0.5, 7.0, -1.0), s(0.001), s(f64::INFINITY)).is_none());
    assert!(wall.hit(land(4.0, 3.5, 7.0, -1.0), s(0.001), s(f64::INFINITY)).is_none());
    assert!(wall.hit(land(4.0, 2.0, 7.0, -1.0), s(0.001), s(6.0)).is_none());
    assert!(wall.hit(land(4.0, 2.0, 7.0, -1.0), s(8.0), s(f64::INFINITY)).is_none());
    assert_eq!(wall.bounding_box(s(-2.0001), s(-1.9999)), Aabb::new(v(3.0, 1.0, -2.0001), v(5.0, 3.0, -1.9999)));
}

#[test]
fn ray_along_the_plane_misses_the_rectangle() {
    let wall = XYRect::new(s(3.0), s(5.0), s(1.0), s(3.0), s(-2.0), ());
    let (origin, direction) = ([4.0f64, 2.0f64, 5.0f64], [1.0f64, 0.5f64, 0.0f64]);
    let t = (-2.0 - origin[2]) / direction[2];
    assert_eq!(t, f64::NEG_INFINITY);
    let (x, y) = (origin[0] + t * direction[0], origin[1] + t * direction[1]);
    let at = Landing { t: s(t), p: v(x, y, -2.0), a: s(x), b: s(y), u: s(0.0), v: s(0.0), dot: s(direction[2]) };
    assert!(wall.hit(at, s(0.001), s(f64::INFINITY)).is_none());
    let up = Landing { t: s(f64::INFINITY), p: v(x, y, -2.0), a: s(f64::INFINITY), b: s(f64::INFINITY), u: s(0.0), v: s(0.0), dot: s(0.0) };
    assert!(wall.hit(up, s(0.001), s(f64::INFINITY)).is_none());
}

#[test]
fn ray_in_the_plane_misses_the_rectangle() {
    let tile = XYRect::new(s(0.0), s(1.0), s(0.0), s(1.0), s(0.0), ());
    let (origin, direction) = ([0.5f64, 0.5f64, 0.0f64], [1.0f64, 0.0f64, 0.0f64]);
    let t = (0.0 - origin[2]) / direction[2];
    assert!(t.is_nan());
    let (x, y) = (origin[0] + t * direction[0], origin[1] + t * direction[1]);
    assert!(x.is_nan() && y.is_nan());
    let at = Landing { t: s(t), p: v(x, y, t), a: s(x), b: s(y), u: s(x), v: s(y), dot: s(direction[2]) };
    assert!(tile.hit(at, s(0.001), s(f64::INFINITY)).is_none());
    assert!(tile.hit(at, s(f64::NEG_INFINITY), s(f64::INFINITY)).is_none());
    let half = |t: f64, x: f64, y: f64| Landing { t: s(t), p: v(x, y, 0.0), a: s(x), b: s(y), u: s(x), v: s(y), dot: s(-1.0) };
    assert!(tile.hit(half(f64::NAN, 0.5, 0.5), s(0.001), s(f64::INFINITY)).is_none());
    assert!(tile.hit(half(1.0, f64::NAN, 0.5), s(0.001), s(f64::INFINITY)).is_none());
    assert!(tile.hit(half(1.0, 0.5, f64::NAN), s(0.001), s(f64::INFINITY)).is_none());
    assert!(tile.hit(half(1.0, 0.5, 0.5), s(f64::NAN), s(f64::INFINITY)).is_none());
    assert!(tile.hit(half(1.0, 0.5, 0.5), s(0.001), s(f64::NAN)).is_none());
    assert!(tile.hit(half(1.0, 0.5, 0.5), s(0.001), s(f64::INFINITY)).is_some());
}

#[test]
fn rectangle_reached_at_the_window_start_is_missed() {
    let tile = XYRect::new(s(0.0), s(1.0), s(0.0), s(1.0), s(-1.0), ());
    let (origin, direction) = ([0.5f64, 0.5f64, 0.0f64], [0.0f64, 0.0f64, -1.0f64]);
    let t = (-1.0 - origin[2]) / direction[2];
    assert_eq!(t, 1.0);
    let (x, y) = (origin[0] + t * direction[0], origin[1] + t * direction[1]);
    let at = Landing { t: s(t), p: v(x, y, -1.0), a: s(x), b: s(y), u: s(x), v: s(y), dot: s(direction[2]) };
    assert!(tile.hit(at, s(1.0), s(f64::INFINITY)).is_none());
    let found = tile.hit(at, s(0.001), s(f64::INFINITY)).unwrap();
    assert_eq!(f(found.t), 1.0);
    assert!(found.front_face);
}

#[test]
fn rectangles_face_along_their_axes() {
    let at = Landing { t: s(1.0), p: v(0.0, 0.0, 0.0), a: s(0.5), b: s(0.5), u: s(0.5), v: s(0.5), dot: s(-1.0) };
    let floor = XZRect::new(s(0.0), s(1.0), s(0.0), s(1.0), s(4.0), ());
    assert_eq!(triple(floor.hit(at, s(0.0), s(2.0)).unwrap().normal), (0.0, 1.0, 0.0));
    assert_eq!(floor.bounding_box(s(3.9), s(4.1)), Aabb::new(v(0.0, 3.9, 0.0), v(1.0, 4.1, 1.0)));
    let side = YZRect::new(s(0.0), s(1.0), s(0.0), s(1.0), s(4.0), ());
    assert_eq!(triple(side.hit(at, s(0.0), s(2.0)).unwrap().normal), (1.0, 0.0, 0.0));
    assert_eq!(side.bounding_box(s(3.9), s(4.1)), Aabb::new(v(3.9, 0.0, 0.0), v(4.1, 1.0, 1.0)));
}

#[test]
fn flip_face_inverts_the_flag_only() {
    let flipped = FlipFace::new(5u8);
    let found = flipped.hit(|o: &u8| Some(some_hit(*o as f64))).unwrap();
    assert!(!found.front_face);
    assert_eq!(f(found.t), 5.0);
    assert_eq!(triple(found.normal), (0.0, 1.0, 0.0));
    assert_eq!(triple(found.p), (1.0, 2.0, 3.0));
    assert_eq!(found.material, 9);
    assert!(flipped.hit(|_o: &u8| None::<HitRecord<u8>>).is_none());
    let twice = FlipFace::new(flipped);
    let back = twice.hit(|o: &FlipFace<u8>| o.hit(|i: &u8| Some(some_hit(*i as f64)))).unwrap();
    assert!(back.front_face);
}

#[test]
fn box_has_six_faces() {
    let b = Boxx::new(v(0.0, 1.0, 2.0), v(10.0, 20.0, 30.0), 'b');
    assert_eq!(b.bounding_box(), Aabb::new(v(0.0, 1.0, 2.0), v(10.0, 20.0, 30.0)));
    let sides = &b.sides.objects;
    assert_eq!(sides.len(), 6);
    match &sides[0] {
        Side::XY(r) => assert_eq!((f(r.x0), f(r.x1), f(r.y0), f(r.y1), f(r.k)), (0.0, 10.0, 1.0, 20.0, 30.0)),
        _ => panic!("the first face lies across z"),
    }
    match &sides[1] {
        Side::FlippedXY(r) => assert_eq!((f(r.object.x0), f(r.object.x1), f(r.object.y0), f(r.object.y1), f(r.object.k)), (0.0, 10.0, 1.0, 20.0, 2.0)),
        _ => panic!("the second face lies across z, flipped"),
    }
    match &sides[2] {
        Side::XZ(r) => assert_eq!((f(r.x0), f(r.x1), f(r.z0), f(r.z1), f(r.k)), (0.0, 10.0, 2.0, 30.0, 20.0)),
        _ => panic!("the third face lies across y"),
    }
    match &sides[3] {
        Side::FlippedXZ(r) => assert_eq!((f(r.object.x0), f(r.object.x1), f(r.object.z0), f(r.object.z1), f(r.object.k)), (0.0, 10.0, 2.0, 30.0, 1.0)),
        _ => panic!("the fourth face lies across y, flipped"),
    }
    match &sides[4] {
        Side::YZ(r) => assert_eq!((f(r.y0), f(r.y1), f(r.z0), f(r.z1), f(r.k), r.material), (1.0, 20.0, 2.0, 30.0, 10.0, 'b')),
        _ => panic!("the fifth face lies across x"),
    }
    match &sides[5] {
        Side::FlippedYZ(r) => assert_eq!((f(r.object.y0), f(r.object.y1), f(r.object.z0), f(r.object.z1), f(r.object.k)), (1.0, 20.0, 2.0, 30.0, 0.0)),
        _ => panic!("the sixth face lies across x, flipped"),
    }
}

/// Where the ray from (0, 0, 5) straight down `z` meets the plane across
/// `axis` at `k`; `a` and `c` are the two axes of the plane.
fn plane(k: f64, axis: usize, a: usize, c: usize) -> Landing {
    let (origin, direction) = ([0.0, 0.0, 5.0], [0.0, 0.0, -1.0]);
    let t = (k - origin[axis]) / direction[axis];
    Landing {
        t: s(t),
        p: v(origin[0] + t * direction[0], origin[1] + t * direction[1], origin[2] + t * direction[2]),
        a: s(origin[a] + t * direction[a]),
        b: s(origin[c] + t * direction[c]),
        u: s(0.0),
        v: s(0.0),
        dot: s(direction[axis]),
    }
}

fn side_hit<'a>(side: &'a Side<()>, lo: Scalar, hi: Scalar) -> Option<HitRecord<&'a ()>> {
    match side {
        Side::XY(r) => r.hit(plane(f(r.k), 2, 0, 1), lo, hi),
        Side::FlippedXY(r) => r.hit(|o| o.hit(plane(f(o.k), 2, 0, 1), lo, hi)),
        Side::XZ(r) => r.hit(plane(f(r.k), 1, 0, 2), lo, hi),
        Side::FlippedXZ(r) => r.hit(|o| o.hit(plane(f(o.k), 1, 0, 2), lo, hi)),
        Side::YZ(r) => r.hit(plane(f(r.k), 0, 1, 2), lo, hi),
        Side::FlippedYZ(r) => r.hit(|o| o.hit(plane(f(o.k), 0, 1, 2), lo, hi)),
    }
}

#[test]
fn box_is_hit_on_its_nearest_face() {
    let b = Boxx::new(v(-1.0, -1.0, -1.0), v(1.0, 1.0, 1.0), ());
    let found = b.hit(s(0.001), s(f64::INFINITY), &side_hit).unwrap();
    assert_eq!(f(found.t), 4.0);
    assert_eq!(triple(found.p), (0.0, 0.0, 1.0));
    assert!(found.front_face);
    assert_eq!(triple(found.normal), (0.0, 0.0, 1.0));
    let inside = b.hit(s(4.5), s(f64::INFINITY), &side_hit).unwrap();
    assert_eq!(f(inside.t), 6.0);
    assert!(!inside.front_face);
    assert_eq!(inside.normal, v(0.0, 0.0, 1.0));
    assert!(b.hit(s(6.5), s(f64::INFINITY), &side_hit).is_none());
}

fn fog() -> ConstantMedium<u8, char> {
    ConstantMedium::new(1u8, s(100.0), 't')
}

/// A boundary that the ray enters at 2 and leaves at 6.
fn boundary(_o: &u8, lo: Scalar, hi: Scalar) -> Option<HitRecord<u8>> {
    for &t in [2.0, 6.0].iter() {
        if f(lo) < t && t < f(hi) {
            return Some(some_hit(t));
        }
    }
    None
}

fn walk_of(hit_distance: f64) -> impl Fn(Scalar, Scalar, Scalar) -> Walk {
    move |entry: Scalar, exit: Scalar, _d: Scalar| {
        let t = f(entry) + hit_distance;
        Walk { hit_distance: s(hit_distance), distance_inside_boundary: s(f(exit) - f(entry)), t: s(t), p: v(0.0, 0.0, t) }
    }
}

#[test]
fn medium_scatters_inside_its_boundary() {
    let m = fog();
    assert_eq!(f(m.neg_inv_density), -100.0);
    assert!(matches!(m.phase_function, Material::Isotropic { albedo: 't' }));
    let past = |t: Scalar| s(f(t) + 0.0001);
    let found = m.hit(s(0.001), s(f64::INFINITY), &boundary, past, walk_of(1.5)).unwrap();
    assert_eq!(f(found.t), 3.5);
    assert_eq!(triple(found.p), (0.0, 0.0, 3.5));
    assert_eq!(triple(found.normal), (1.0, 0.0, 0.0));
    assert!(found.front_face);
    assert_eq!((f(found.u), f(found.v)), (0.0, 0.0));
    assert!(matches!(found.material, Material::Isotropic { albedo: 't' }));
    assert!(m.hit(s(0.001), s(f64::INFINITY), &boundary, past, walk_of(4.0)).is_some());
    assert!(m.hit(s(0.001), s(f64::INFINITY), &boundary, past, walk_of(4.5)).is_none());
}

#[test]
fn medium_cuts_the_way_to_the_window() {
    let m = fog();
    let past = |t: Scalar| s(f(t) + 0.0001);
    let seen = std::cell::RefCell::new(Vec::new());
    let walk = |entry: Scalar, exit: Scalar, d: Scalar| {
        seen.borrow_mut().push((f(entry), f(exit), f(d)));
        Walk { hit_distance: s(0.0), distance_inside_boundary: s(1.0), t: entry, p: v(0.0, 0.0, 0.0) }
    };
    assert!(m.hit(s(3.0), s(5.0), &boundary, past, &walk).is_some());
    assert!(m.hit(s(0.001), s(4.0), &boundary, past, &walk).is_some());
    assert!(m.hit(s(6.0), s(9.0), &boundary, past, &walk).is_none());
    assert!(m.hit(s(0.0), s(2.0), &boundary, past, &walk).is_none());
    assert!(m.hit(s(0.0), s(1.0), &boundary, past, &walk).is_none());
    assert_eq!(*seen.borrow(), vec![(3.0, 5.0, -100.0), (2.0, 4.0, -100.0)]);
}

#[test]
fn medium_starts_no_earlier_than_the_origin() {
    let m = fog();
    let around = |_o: &u8, lo: Scalar, hi: Scalar| {
        for &t in [-3.0, 4.0].iter() {
            if f(lo) < t && t < f(hi) {
                return Some(some_hit(t));
            }
        }
        None
    };
    let seen = std::cell::RefCell::new(Vec::new());
    let walk = |entry: Scalar, exit: Scalar, _d: Scalar| {
        seen.borrow_mut().push((f(entry), f(exit)));
        Walk { hit_distance: s(1.0), distance_inside_boundary: s(4.0), t: s(1.0), p: v(0.0, 0.0, 0.0) }
    };
    let past = |t: Scalar| s(f(t) + 0.0001);
    assert!(m.hit(s(f64::NEG_INFINITY), s(f64::INFINITY), &around, past, &walk).is_some());
    assert_eq!(*seen.borrow(), vec![(0.0, 4.0)]);
}

#[test]
fn medium_needs_a_way_in_and_a_way_out() {
    let m = fog();
    let past = |t: Scalar| s(f(t) + 0.0001);
    let nothing = |_o: &u8, _lo: Scalar, _hi: Scalar| None::<HitRecord<u8>>;
    assert!(m.hit(s(0.001), s(f64::INFINITY), &nothing, past, walk_of(0.0)).is_none());
    let once = |_o: &u8, lo: Scalar, hi: Scalar| if f(lo) < 2.0 && 2.0 < f(hi) { Some(some_hit(2.0)) } else { None };
    assert!(m.hit(s(0.001), s(f64::INFINITY), &once, past, walk_of(0.0)).is_none());
    let asked = std::cell::RefCell::new(Vec::new());
    let noting = |o: &u8, lo: Scalar, hi: Scalar| {
        asked.borrow_mut().push((f(lo), f(hi)));
        boundary(o, lo, hi)
    };
    assert!(m.hit(s(0.001), s(f64::INFINITY), &noting, past, walk_of(0.0)).is_some());
    assert_eq!(*asked.borrow(), vec![(f64::NEG_INFINITY, f64::INFINITY), (2.0001, f64::INFINITY)]);
}

fn forth(p: Point, o: Vector) -> Point {
    v(f(p.x()) + f(o.x()), f(p.y()) + f(o.y()), f(p.z()) + f(o.z()))
}

#[test]
fn moved_object_is_hit_where_the_object_is() {
    let offset = [265.0, 0.0, 295.0];
    let (origin, direction) = ([278.0, 278.0, -800.0], [0.01, -0.2, 1.0]);
    let moved = Translate::new(Sphere::new(v(0.0, 90.0, 0.0), s(90.0), 'g'), v(offset[0], offset[1], offset[2]));
    let local = [origin[0] - offset[0], origin[1] - offset[1], origin[2] - offset[2]];
    let found = moved
        .hit(
            |ball| {
                let (d, near, far) = crossings([0.0, 90.0, 0.0], 90.0, local, direction);
                ball.hit(d, near, far, s(0.001), s(f64::INFINITY))
            },
            forth,
        )
        .unwrap();
    let (d, near, far) = crossings([0.0, 90.0, 0.0], 90.0, local, direction);
    let inner_ball = Sphere::new(v(0.0, 90.0, 0.0), s(90.0), 'g');
    let inner = inner_ball.hit(d, near, far, s(0.001), s(f64::INFINITY)).unwrap();
    assert_eq!(found.t, inner.t);
    assert_eq!(found.normal, inner.normal);
    assert_eq!(found.front_face, inner.front_face);
    assert_eq!((found.u, found.v), (inner.u, inner.v));
    assert!(found.front_face);
    let back = [f(found.p.x()) - offset[0], f(found.p.y()) - offset[1], f(found.p.z()) - offset[2]];
    let there = [f(inner.p.x()), f(inner.p.y()), f(inner.p.z())];
    for a in 0..3 {
        assert!((back[a] - there[a]).abs() < 1.0e-9);
    }
    let on_ball = [there[0], there[1] - 90.0, there[2]];
    assert!((dot(on_ball, on_ball).sqrt() - 90.0).abs() < 1.0e-9);
    assert_eq!(moved.bounding_box(v(175.0, 0.0, 205.0), v(355.0, 180.0, 385.0)), Aabb::new(v(175.0, 0.0, 205.0), v(355.0, 180.0, 385.0)));
    assert!(moved.hit(|_b| None::<HitRecord<&char>>, forth).is_none());
}

#[test]
fn moved_object_keeps_the_side_that_is_hit() {
    let moved = Translate::new(Sphere::new(v(0.0, 0.0, 0.0), s(1.0), 'g'), v(2.0, 0.0, 0.0));
    let (origin, direction) = ([2.0, 0.0, 0.0], [0.0, 0.0, -1.0]);
    let local = [origin[0] - 2.0, origin[1], origin[2]];
    let found = moved
        .hit(
            |ball| {
                let (d, near, far) = crossings([0.0, 0.0, 0.0], 1.0, local, direction);
                ball.hit(d, near, far, s(0.001), s(f64::INFINITY))
            },
            forth,
        )
        .unwrap();
    assert_eq!(f(found.t), 1.0);
    assert_eq!(triple(found.p), (2.0, 0.0, -1.0));
    assert_eq!(triple(found.normal), (0.0, 0.0, 1.0));
    assert!(!found.front_face);
    assert_eq!(*found.material, 'g');
}

#[test]
fn moved_flat_object_comes_back_exactly() {
    let moved = Translate::new((), v(2.0, 4.0, 8.0));
    let found = moved.hit(|_o: &()| Some(some_hit(3.0)), forth).unwrap();
    assert_eq!(triple(found.p), (3.0, 6.0, 11.0));
    assert_eq!((f(found.p.x()) - 2.0, f(found.p.y()) - 4.0, f(found.p.z()) - 8.0), (1.0, 2.0, 3.0));
    assert_eq!(f(found.t), 3.0);
    assert!(found.front_face);
    assert_eq!(triple(found.normal), (0.0, 1.0, 0.0));
    assert_eq!((f(found.u), f(found.v), found.material), (0.5, 0.25, 9));
    let inside = HitRecord { front_face: false, ..some_hit(3.0) };
    let found = moved.hit(|_o: &()| Some(inside), forth).unwrap();
    assert!(!found.front_face);
    assert_eq!(triple(found.normal), (0.0, 1.0, 0.0));
}

fn turn_back(p: Point, n: Vector, sin: Scalar, cos: Scalar) -> Turned {
    let (sin, cos) = (f(sin), f(cos));
    let turn = |w: Vector| v(cos * f(w.x()) + sin * f(w.z()), f(w.y()), -sin * f(w.x()) + cos * f(w.z()));
    Turned { p: turn(p), normal: turn(n) }
}

#[test]
fn turned_object_brings_its_hit_back() {
    let corners = [v(0.0, 0.0, 0.0); 8];
    let turned = RotateY::new(4u8, s(0.6), s(0.8), &corners);
    assert_eq!(turned.bounding_box(), Aabb::new(v(0.0, 0.0, 0.0), v(0.0, 0.0, 0.0)));
    let found = turned.hit(|_o: &u8| Some(some_hit(2.0)), turn_back).unwrap();
    assert_eq!(triple(found.p), (0.8 * 1.0 + 0.6 * 3.0, 2.0, -0.6 * 1.0 + 0.8 * 3.0));
    assert_eq!(triple(found.normal), (0.0, 1.0, 0.0));
    assert!(found.front_face);
    assert_eq!(f(found.t), 2.0);
    assert_eq!((f(found.u), f(found.v), found.material), (0.5, 0.25, 9));
    assert!(turned.hit(|_o: &u8| None::<HitRecord<u8>>, turn_back).is_none());
}

#[test]
fn turned_object_keeps_the_side_that_is_hit() {
    let corners = [v(0.0, 0.0, 0.0); 8];
    let half_turn = RotateY::new((), s(0.0), s(-1.0), &corners);
    let outside = HitRecord { normal: v(1.0, 0.0, 0.0), ..some_hit(2.0) };
    let found = half_turn.hit(|_o: &()| Some(outside), turn_back).unwrap();
    assert!(found.front_face);
    assert_eq!(triple(found.normal), (-1.0, 0.0, 0.0));
    assert_eq!(triple(found.p), (-1.0, 2.0, -3.0));
    let inside = HitRecord { front_face: false, ..outside };
    let found = half_turn.hit(|_o: &()| Some(inside), turn_back).unwrap();
    assert!(!found.front_face);
    assert_eq!(triple(found.normal), (-1.0, 0.0, 0.0));
}
