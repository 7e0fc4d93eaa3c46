use raytracer::aabb::{Aabb, Padding};
use raytracer::interval::Interval;
use raytracer::scalar::Scalar;
use raytracer::vec3::Vec3;

fn s(x: f64) -> Scalar {
    Scalar::from_bits(x.to_bits())
}

fn f(x: Scalar) -> f64 {
    f64::from_bits(x.to_bits())
}

fn v(x: f64, y: f64, z: f64) -> Vec3 {
    Vec3::new(s(x), s(y), s(z))
}

fn iv(a: f64, b: f64) -> Interval {
    Interval::new(s(a), s(b))
}

fn pad(a: [f64; 3], b: [f64; 3]) -> Padding {
    let range = |k: usize| Interval::new(s(a[k].min(b[k]) - 0.00005), s(a[k].max(b[k]) + 0.00005));
    Padding {
        extent: Vec3::new(s((a[0] - b[0]).abs()), s((a[1] - b[1]).abs()), s((a[2] - b[2]).abs())),
        widened: Aabb { x: range(0), y: range(1), z: range(2) },
    }
}

fn crossings(b: &Aabb, orig: [f64; 3], dir: [f64; 3]) -> [Interval; 3] {
    let mut out = [iv(0.0, 0.0); 3];
    for axis in 0..3 {
        let ax = b.axis_interval(axis as i32);
        let adinv = 1.0 / dir[axis];
        let t0 = (f(ax.min) - orig[axis]) * adinv;
        let t1 = (f(ax.max) - orig[axis]) * adinv;
        out[axis] = iv(t0, t1);
    }
    out
}

fn slab_reference(b: &Aabb, orig: [f64; 3], dir: [f64; 3], mut lo: f64, mut hi: f64) -> bool {
    for axis in 0..3 {
        let ax = b.axis_interval(axis as i32);
        let adinv = 1.0 / dir[axis];
        let mut t0 = (f(ax.min) - orig[axis]) * adinv;
        let mut t1 = (f(ax.max) - orig[axis]) * adinv;
        if t0 >= t1 {
            std::mem::swap(&mut t0, &mut t1);
        }
        lo = lo.max(t0);
        hi = hi.min(t1);
        if hi <= lo {
            return false;
        }
    }
    true
}

fn lcg(state: &mut u64) -> f64 {
    *state = state.wrapping_mul(6364136223846793005).wrapping_add(1442695040888963407);
    ((*state >> 11) as f64 / (1u64 << 53) as f64) * 2.0 - 1.0
}

#[test]
fn union_holds_both_boxes() {
    let a = Aabb { x: iv(0.0, 1.0), y: iv(0.0, 1.0), z: iv(0.0, 1.0) };
    let b = Aabb { x: iv(-2.0, 0.5), y: iv(0.25, 3.0), z: iv(0.5, 0.75) };
    let u = Aabb::new_aabb(&a, &b);
    assert_eq!((f(u.x.min), f(u.x.max)), (-2.0, 1.0));
    assert_eq!((f(u.y.min), f(u.y.max)), (0.0, 3.0));
    assert_eq!((f(u.z.min), f(u.z.max)), (0.0, 1.0));
    let e = Aabb::empty();
    let ue = Aabb::new_aabb(&e, &b);
    assert_eq!((f(ue.x.min), f(ue.x.max)), (-2.0, 0.5));
    assert_eq!((f(ue.z.min), f(ue.z.max)), (0.5, 0.75));
}

#[test]
fn diagonal_takes_corners_in_any_order() {
    let p = pad([1.0, -1.0, 5.0], [-1.0, 1.0, 2.0]);
    let b = Aabb::new_diagonal(v(1.0, -1.0, 5.0), v(-1.0, 1.0, 2.0), &p.extent, &p.widened);
    assert_eq!((f(b.x.min), f(b.x.max)), (-1.0, 1.0));
    assert_eq!((f(b.y.min), f(b.y.max)), (-1.0, 1.0));
    assert_eq!((f(b.z.min), f(b.z.max)), (2.0, 5.0));
    assert_eq!(f(b.axis_interval(0).min), -1.0);
    assert_eq!(f(b.axis_interval(1).max), 1.0);
    assert_eq!(f(b.axis_interval(2).min), 2.0);
    assert_eq!(f(b.axis_interval(7).max), 1.0);
}

#[test]
fn slab_test_hits_and_misses() {
    let p = pad([-1.0; 3], [1.0; 3]);
    let b = Aabb::new_diagonal(v(-1.0, -1.0, -1.0), v(1.0, 1.0, 1.0), &p.extent, &p.widened);
    let ray_t = iv(0.001, f64::INFINITY);
    let toward = crossings(&b, [0.0, 0.0, 3.0], [0.0, 0.0, -1.0]);
    assert!(Aabb::hit(&toward, &ray_t));
    let away = crossings(&b, [0.0, 0.0, 3.0], [0.0, 0.0, 1.0]);
    assert!(!Aabb::hit(&away, &ray_t));
    let beside = crossings(&b, [5.0, 0.0, 3.0], [0.0, 0.0, -1.0]);
    assert!(!Aabb::hit(&beside, &ray_t));
    let short = iv(0.001, 1.5);
    assert!(!Aabb::hit(&toward, &short));
    let reaching = iv(0.001, 2.5);
    assert!(Aabb::hit(&toward, &reaching));
}

#[test]
fn slab_test_agrees_with_arithmetic_on_random_rays() {
    let mut state = 11u64;
    let mut hits = 0;
    for _ in 0..20000 {
        let lo = [lcg(&mut state), lcg(&mut state), lcg(&mut state)];
        let hi = [lcg(&mut state), lcg(&mut state), lcg(&mut state)];
        let p = pad(lo, hi);
        let b =
            Aabb::new_diagonal(v(lo[0], lo[1], lo[2]), v(hi[0], hi[1], hi[2]), &p.extent, &p.widened);
        let orig = [2.0 * lcg(&mut state), 2.0 * lcg(&mut state), 2.0 * lcg(&mut state)];
        let mut dir = [lcg(&mut state), lcg(&mut state), lcg(&mut state)];
        if lcg(&mut state) > 0.8 {
            dir[0] = 0.0;
        }
        let lo = 0.001;
        let hi = if lcg(&mut state) > 0.0 { f64::INFINITY } else { 1.0 + lcg(&mut state) };
        let expected = slab_reference(&b, orig, dir, lo, hi);
        let got = Aabb::hit(&crossings(&b, orig, dir), &iv(lo, hi));
        assert_eq!(got, expected);
        if got {
            hits += 1;
        }
    }
    assert!(hits > 100);
}

#[test]
fn longest_axis_prefers_as_the_rule_says() {
    assert_eq!(Aabb::longest_axis(&v(3.0, 2.0, 1.0)), 0);
    assert_eq!(Aabb::longest_axis(&v(1.0, 3.0, 2.0)), 1);
    assert_eq!(Aabb::longest_axis(&v(1.0, 2.0, 3.0)), 2);
    assert_eq!(Aabb::longest_axis(&v(2.0, 2.0, 2.0)), 2);
    assert_eq!(Aabb::longest_axis(&v(3.0, 3.0, 1.0)), 1);
    assert_eq!(Aabb::longest_axis(&v(3.0, 1.0, 3.0)), 2);
}

#[test]
fn padding_widens_thin_sides_only() {
    let mut b = Aabb { x: iv(0.0, 1.0), y: iv(2.0, 2.0), z: iv(0.0, 0.00005) };
    let widened =
        Aabb { x: iv(-0.00005, 1.00005), y: iv(1.99995, 2.00005), z: iv(-0.00005, 0.0001) };
    b.pad_to_minimums(&v(1.0, 0.0, 0.00005), &widened);
    assert_eq!((f(b.x.min), f(b.x.max)), (0.0, 1.0));
    assert_eq!((f(b.y.min), f(b.y.max)), (1.99995, 2.00005));
    assert_eq!((f(b.z.min), f(b.z.max)), (-0.00005, 0.0001));
}

#[test]
fn corners_and_their_extent() {
    let b = Aabb { x: iv(0.0, 1.0), y: iv(2.0, 3.0), z: iv(4.0, 5.0) };
    let c = b.corner(true, false, true);
    assert_eq!((f(c.x()), f(c.y()), f(c.z())), (1.0, 2.0, 5.0));
    let mut pts = Vec::new();
    for i in 0..2 {
        for j in 0..2 {
            for k in 0..2 {
                let p = b.corner(i == 1, j == 1, k == 1);
                pts.push(v(f(p.z()), f(p.y()), -f(p.x())));
            }
        }
    }
    let turned = Aabb::enclosing(&pts);
    assert_eq!((f(turned.x.min), f(turned.x.max)), (4.0, 5.0));
    assert_eq!((f(turned.y.min), f(turned.y.max)), (2.0, 3.0));
    assert_eq!((f(turned.z.min), f(turned.z.max)), (-1.0, 0.0));
    let none = Aabb::enclosing(&Vec::new());
    assert_eq!((f(none.x.min), f(none.x.max)), (f64::INFINITY, f64::NEG_INFINITY));
    let d = Aabb::default();
    assert_eq!((f(d.z.min), f(d.z.max)), (f64::NEG_INFINITY, f64::INFINITY));
}

#[test]
fn vector_parts_and_signs() {
    let a = v(1.0, -2.0, 0.0);
    assert_eq!((f(a.x()), f(a.y()), f(a.z())), (1.0, -2.0, 0.0));
    assert_eq!(f(a.get(0)), 1.0);
    assert_eq!(f(a.get(1)), -2.0);
    assert_eq!(f(a.get(2)), 0.0);
    let n = a.neg();
    assert_eq!((f(n.x()), f(n.y())), (-1.0, 2.0));
    assert_eq!(f(n.z()).to_bits(), (-0.0f64).to_bits());
    let c = Vec3::copy(&a);
    assert_eq!(f(c.y()), -2.0);
    assert!(v(1.0e-9, -1.0e-9, 0.0).near_zero());
    assert!(!v(1.0e-9, 1.0e-8, 0.0).near_zero());
    assert!(!v(f64::NAN, 0.0, 0.0).near_zero());
    let z = Vec3::default();
    assert_eq!((f(z.x()), f(z.y()), f(z.z())), (0.0, 0.0, 0.0));
}

#[test]
fn flat_boxes_are_padded() {
    let p = pad([0.0, 0.0, 0.0], [1.0, 1.0, 0.0]);
    let b = Aabb::new_diagonal(v(0.0, 0.0, 0.0), v(1.0, 1.0, 0.0), &p.extent, &p.widened);
    assert_eq!((f(b.x.min), f(b.x.max)), (0.0, 1.0));
    assert_eq!((f(b.y.min), f(b.y.max)), (0.0, 1.0));
    assert_eq!((f(b.z.min), f(b.z.max)), (-0.00005, 0.00005));
    assert!(f(b.z.max) - f(b.z.min) >= 0.0001);
    let swapped = Aabb::new_diagonal(v(1.0, 1.0, 0.0), v(0.0, 0.0, 0.0), &p.extent, &p.widened);
    assert_eq!((f(swapped.z.min), f(swapped.z.max)), (-0.00005, 0.00005));
    assert_eq!((f(swapped.x.min), f(swapped.x.max)), (0.0, 1.0));
    let point = pad([2.0; 3], [2.0; 3]);
    let dot = Aabb::new(iv(2.0, 2.0), iv(2.0, 2.0), iv(2.0, 2.0), &point.extent, &point.widened);
    for axis in 0..3 {
        let r = dot.axis_interval(axis);
        assert_eq!((f(r.min), f(r.max)), (1.99995, 2.00005));
    }
    let thick = pad([0.0; 3], [0.0001, 0.5, 3.0]);
    let kept = Aabb::new(iv(0.0, 0.0001), iv(0.0, 0.5), iv(0.0, 3.0), &thick.extent, &thick.widened);
    assert_eq!((f(kept.x.min), f(kept.x.max)), (0.0, 0.0001));
    assert_eq!((f(kept.y.min), f(kept.y.max)), (0.0, 0.5));
    assert_eq!((f(kept.z.min), f(kept.z.max)), (0.0, 3.0));
}

#[test]
fn corners_that_are_no_numbers_move_no_bound() {
    let pts = vec![v(1.0, f64::NAN, 3.0), v(-1.0, 2.0, f64::NAN), v(f64::NAN, 5.0, 4.0)];
    let b = Aabb::enclosing(&pts);
    assert_eq!((f(b.x.min), f(b.x.max)), (-1.0, 1.0));
    assert_eq!((f(b.y.min), f(b.y.max)), (2.0, 5.0));
    assert_eq!((f(b.z.min), f(b.z.max)), (3.0, 4.0));
    let none = Aabb::enclosing(&vec![v(f64::NAN, f64::NAN, f64::NAN)]);
    assert_eq!((f(none.x.min), f(none.x.max)), (f64::INFINITY, f64::NEG_INFINITY));
}
