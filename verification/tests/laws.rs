use raytracer::aabb::{Aabb, Padding, PaddingPair};
use raytracer::hittable::Crossing;
use raytracer::interval::Interval;
use raytracer::pdf::{CosinePdf, SpherePdf};
use raytracer::scalar::Scalar;
use raytracer::sphere::Sphere;
use raytracer::tria::Tria;
use raytracer::vec3::Vec3;

fn s(x: f64) -> Scalar {
    Scalar::from_bits(x.to_bits())
}

fn f(x: Scalar) -> f64 {
    f64::from_bits(x.to_bits())
}

fn v(p: [f64; 3]) -> Vec3 {
    Vec3::new(s(p[0]), s(p[1]), s(p[2]))
}

fn pad(a: [f64; 3], b: [f64; 3]) -> Padding {
    let range = |k: usize| Interval::new(s(a[k].min(b[k]) - 0.00005), s(a[k].max(b[k]) + 0.00005));
    Padding {
        extent: Vec3::new(s((a[0] - b[0]).abs()), s((a[1] - b[1]).abs()), s((a[2] - b[2]).abs())),
        widened: Aabb { x: range(0), y: range(1), z: range(2) },
    }
}

fn lcg(state: &mut u64) -> f64 {
    *state = state.wrapping_mul(6364136223846793005).wrapping_add(1442695040888963407);
    (*state >> 11) as f64 / (1u64 << 53) as f64
}

fn dot(a: [f64; 3], b: [f64; 3]) -> f64 {
    a[0] * b[0] + a[1] * b[1] + a[2] * b[2]
}

fn direction(state: &mut u64) -> [f64; 3] {
    loop {
        let d = [2.0 * lcg(state) - 1.0, 2.0 * lcg(state) - 1.0, 2.0 * lcg(state) - 1.0];
        let l = dot(d, d);
        if l < 1.0 && l > 1.0e-6 {
            let n = l.sqrt();
            return [d[0] / n, d[1] / n, d[2] / n];
        }
    }
}

#[test]
fn hits_on_a_sphere_lie_in_its_box() {
    let mut state = 21u64;
    let mut hits = 0;
    for _ in 0..5000 {
        let center = [10.0 * lcg(&mut state) - 5.0, 10.0 * lcg(&mut state) - 5.0, 10.0 * lcg(&mut state) - 5.0];
        let radius = 0.1 + 2.0 * lcg(&mut state);
        let low = [center[0] - radius, center[1] - radius, center[2] - radius];
        let high = [center[0] + radius, center[1] + radius, center[2] + radius];
        let sphere = Sphere::new_static(v(center), s(radius), 0, v(low), v(high), &pad(low, high));
        let orig = [20.0 * lcg(&mut state) - 10.0, 20.0 * lcg(&mut state) - 10.0, 20.0 * lcg(&mut state) - 10.0];
        let aim = direction(&mut state);
        let dir = [
            center[0] + radius * aim[0] * lcg(&mut state) - orig[0],
            center[1] + radius * aim[1] * lcg(&mut state) - orig[1],
            center[2] + radius * aim[2] * lcg(&mut state) - orig[2],
        ];
        let oc = [center[0] - orig[0], center[1] - orig[1], center[2] - orig[2]];
        let a = dot(dir, dir);
        let h = dot(dir, oc);
        let c = dot(oc, oc) - radius * radius;
        let delta = h * h - a * c;
        let at = |t: f64| {
            let p = [orig[0] + t * dir[0], orig[1] + t * dir[1], orig[2] + t * dir[2]];
            let n = [(p[0] - center[0]) / radius, (p[1] - center[1]) / radius, (p[2] - center[2]) / radius];
            Crossing { t: s(t), p: v(p), outward_normal: v(n), facing: s(dot(dir, n)), u: s(0.0), v: s(0.0) }
        };
        let ray_t = Interval::new(s(0.001), s(f64::INFINITY));
        let rec = sphere.hit(&ray_t, s(delta), &at((h - delta.sqrt()) / a), &at((h + delta.sqrt()) / a));
        if let Some(rec) = rec {
            hits += 1;
            let b = sphere.bounding_box();
            let p = [f(rec.p.x()), f(rec.p.y()), f(rec.p.z())];
            for axis in 0..3 {
                let iv = b.axis_interval(axis as i32);
                assert!(f(iv.min) - 1.0e-9 <= p[axis] && p[axis] <= f(iv.max) + 1.0e-9);
            }
            assert!(ray_t.surrounds(rec.t));
        }
    }
    assert!(hits > 1000);
}

#[test]
fn points_of_a_triangle_lie_in_its_box() {
    let mut state = 33u64;
    for _ in 0..2000 {
        let mut corner = || [4.0 * lcg(&mut state) - 2.0, 4.0 * lcg(&mut state) - 2.0, 4.0 * lcg(&mut state) - 2.0];
        let p = [corner(), corner(), corner()];
        let points = vec![v(p[0]), v(p[1]), v(p[2])];
        let normals = vec![v([0.0, 0.0, 1.0]); 3];
        let pads = PaddingPair { first: pad(p[0], p[1]), second: pad(p[0], p[2]) };
        let tria = Tria::new(&points, &Vec::new(), &normals, [0, 1, 2], 0, &pads);
        let b1 = lcg(&mut state);
        let b2 = (1.0 - b1) * lcg(&mut state);
        let b0 = 1.0 - b1 - b2;
        let b = tria.bounding_box();
        for axis in 0..3 {
            let x = b0 * p[0][axis] + b1 * p[1][axis] + b2 * p[2][axis];
            let iv = b.axis_interval(axis as i32);
            assert!(f(iv.min) - 1.0e-9 <= x && x <= f(iv.max) + 1.0e-9);
        }
    }
}

#[test]
fn even_density_adds_up_to_one() {
    let density = f(SpherePdf {}.value(&v([0.0, 0.0, 1.0])));
    let whole_sphere = 4.0 * std::f64::consts::PI;
    assert!((density * whole_sphere - 1.0).abs() < 1.0e-12);
}

#[test]
fn cosine_density_adds_up_to_one() {
    let mut state = 55u64;
    let normal = direction(&mut state);
    let pdf = CosinePdf::new(v(normal));
    let even = f(SpherePdf {}.value(&v(normal)));
    let n = 400000;
    let mut sum = 0.0;
    for _ in 0..n {
        let d = direction(&mut state);
        let value = f(pdf.value(s(dot(d, normal) / std::f64::consts::PI)));
        assert!(value >= 0.0);
        sum += value / even;
    }
    let mean = sum / n as f64;
    assert!((mean - 1.0).abs() < 0.02, "the density adds up to {}", mean);
}

#[test]
fn sphere_answers_hang_together_over_ranges() {
    let sphere = Sphere::new_static(v([0.0; 3]), s(1.0), 0, v([-1.0; 3]), v([1.0; 3]), &pad([-1.0; 3], [1.0; 3]));
    let near = Crossing { t: s(2.0), p: v([0.0, 0.0, 1.0]), outward_normal: v([0.0, 0.0, 1.0]), facing: s(-1.0), u: s(0.0), v: s(0.0) };
    let far = Crossing { t: s(4.0), p: v([0.0, 0.0, -1.0]), outward_normal: v([0.0, 0.0, -1.0]), facing: s(1.0), u: s(0.0), v: s(0.0) };
    let ends = [0.5, 2.0, 2.5, 4.0, 4.5, f64::INFINITY];
    for lo in [0.001, 2.0, 3.0, 4.0] {
        for (i, &c) in ends.iter().enumerate() {
            for &d in ends[i..].iter() {
                let in_c = sphere.hit(&Interval::new(s(lo), s(c)), s(4.0), &near, &far).map(|h| f(h.t));
                let in_d = sphere.hit(&Interval::new(s(lo), s(d)), s(4.0), &near, &far).map(|h| f(h.t));
                if let Some(k) = in_c {
                    assert!(k <= c);
                    assert_eq!(in_d, Some(k));
                }
                if let Some(k) = in_d {
                    if k < c {
                        assert_eq!(in_c, Some(k));
                    }
                }
            }
        }
    }
    assert!(sphere.hit(&Interval::new(s(0.001), s(10.0)), s(-1.0), &near, &far).is_none());
}
