use raytracer::geometry::{Color, Scalar, Vector};
use raytracer::textures::perlin::POINT_COUNT;
use raytracer::textures::{Checker, Perlin, SolidColor};

fn s(x: f64) -> Scalar {
    Scalar::from_bits(x.to_bits())
}

fn f(x: Scalar) -> f64 {
    f64::from_bits(x.to_bits())
}

fn v(x: f64, y: f64, z: f64) -> Vector {
    Vector::new(s(x), s(y), s(z))
}

fn triple(p: Vector) -> (f64, f64, f64) {
    (f(p.x()), f(p.y()), f(p.z()))
}

fn numbered() -> Vec<Vector> {
    (0..POINT_COUNT).map(|i| v(i as f64, 0.0, 0.0)).collect()
}

#[test]
fn solid_colour_is_the_same_everywhere() {
    assert_eq!(triple(SolidColor::new(s(0.2), s(0.3), s(0.1)).value()), (0.2, 0.3, 0.1));
    assert_eq!(triple(SolidColor::from(s(0.9)).value()), (0.9, 0.9, 0.9));
    assert_eq!(triple(SolidColor::from_color(v(0.65, 0.05, 0.05)).value()), (0.65, 0.05, 0.05));
}

#[test]
fn checker_alternates_by_the_sign() {
    let board = Checker::new(SolidColor::from(s(0.9)), SolidColor::new(s(0.2), s(0.3), s(0.1)));
    let look = |t: &SolidColor| -> Color { t.value() };
    assert_eq!(triple(board.value(s(0.5), look)), (0.9, 0.9, 0.9));
    assert_eq!(triple(board.value(s(0.0), look)), (0.9, 0.9, 0.9));
    assert_eq!(triple(board.value(s(-0.0), look)), (0.9, 0.9, 0.9));
    assert_eq!(triple(board.value(s(-1.0e-300), look)), (0.2, 0.3, 0.1));
    assert_eq!(triple(board.value(s(-1.0), look)), (0.2, 0.3, 0.1));
    assert_eq!(triple(board.value(s(f64::NAN), look)), (0.9, 0.9, 0.9));
    assert_eq!(triple(board.even.value()), (0.9, 0.9, 0.9));
}

#[test]
fn permutation_holds_each_number_once() {
    let mut rng = rand::thread_rng();
    let mut moved = 0;
    for _ in 0..5 {
        let p = Perlin::generate_perm(&mut rng);
        assert_eq!(p.len(), 256);
        let mut sorted = p.clone();
        sorted.sort();
        assert_eq!(sorted, (0..256u64).collect::<Vec<u64>>());
        moved += p.iter().enumerate().filter(|(i, &x)| *i as u64 != x).count();
    }
    assert!(moved > 256);
}

#[test]
fn noise_table_needs_all_its_vectors() {
    let mut rng = rand::thread_rng();
    assert!(Perlin::new(Vec::new(), &mut rng).is_none());
    assert!(Perlin::new(numbered()[..255].to_vec(), &mut rng).is_none());
    let mut more = numbered();
    more.push(v(0.0, 0.0, 0.0));
    assert!(Perlin::new(more, &mut rng).is_none());
    assert!(Perlin::new(numbered(), &mut rng).is_some());
}

#[test]
fn lattice_repeats_every_256() {
    let mut rng = rand::thread_rng();
    let table = Perlin::new(numbered(), &mut rng).unwrap();
    let points = [(0i64, 0i64, 0i64), (1, 2, 3), (-1, -2, -3), (255, 256, 257), (-255, -256, -257), (1000, -1000, 0), (i64::MAX, i64::MIN, 77)];
    for &(i, j, k) in points.iter() {
        let here = table.corner(i, j, k);
        let n = f(here.x());
        assert!(0.0 <= n && n < 256.0);
        assert_eq!(table.corner(i.wrapping_add(256), j, k), here);
        assert_eq!(table.corner(i, j.wrapping_sub(512), k), here);
        assert_eq!(table.corner(i & 255, j & 255, k & 255), here);
    }
    let along: Vec<u64> = (0..256).map(|i| f(table.corner(i, 0, 0).x()) as u64 ^ f(table.corner(0, 0, 0).x()) as u64).collect();
    let mut sorted = along.clone();
    sorted.sort();
    sorted.dedup();
    assert_eq!(sorted.len(), 256);
}

#[test]
fn cell_holds_its_eight_corners() {
    let mut rng = rand::thread_rng();
    let table = Perlin::new(numbered(), &mut rng).unwrap();
    for &(i, j, k) in [(0i64, 0i64, 0i64), (-1, -1, -1), (254, 255, 256), (-300, 12, 99999)].iter() {
        let c = table.cell(i, j, k);
        for di in 0..2 {
            for dj in 0..2 {
                for dk in 0..2 {
                    assert_eq!(c[di][dj][dk], table.corner(i + di as i64, j + dj as i64, k + dk as i64));
                }
            }
        }
    }
}
