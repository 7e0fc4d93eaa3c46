use raytracer::aabb::{Aabb, Padding, PaddingPair};
use raytracer::constant_medium::ConstMedium;
use raytracer::hittable::Crossing;
use raytracer::interval::Interval;
use raytracer::material::Dielectric;
use raytracer::quad::{Flat, Quad};
use raytracer::hittable::HitRecord;
use raytracer::scalar::Scalar;
use raytracer::sphere::Sphere;
use raytracer::texture::{CheckerTexture, SolidColor, Texture};
use raytracer::vec3::Vec3;

fn s(x: f64) -> Scalar {
    Scalar::from_bits(x.to_bits())
}

fn f(x: Scalar) -> f64 {
    f64::from_bits(x.to_bits())
}

fn v(p: [f64; 3]) -> Vec3 {
    Vec3::new(s(p[0]), s(p[1]), s(p[2]))
}

fn pad(a: [f64; 3], b: [f64; 3]) -> Padding {
    let range = |k: usize| Interval::new(s(a[k].min(b[k]) - 0.00005), s(a[k].max(b[k]) + 0.00005));
    Padding {
        extent: Vec3::new(s((a[0] - b[0]).abs()), s((a[1] - b[1]).abs()), s((a[2] - b[2]).abs())),
        widened: Aabb { x: range(0), y: range(1), z: range(2) },
    }
}

fn lcg(state: &mut u64) -> f64 {
    *state = state.wrapping_mul(6364136223846793005).wrapping_add(1442695040888963407);
    (*state >> 11) as f64 / (1u64 << 53) as f64
}

fn dot(a: [f64; 3], b: [f64; 3]) -> f64 {
    a[0] * b[0] + a[1] * b[1] + a[2] * b[2]
}

fn reference_sphere(center: [f64; 3], radius: f64, orig: [f64; 3], dir: [f64; 3], lo: f64, hi: f64) -> Option<(f64, bool)> {
    let oc = [center[0] - orig[0], center[1] - orig[1], center[2] - orig[2]];
    let a = dot(dir, dir);
    let h = dot(dir, oc);
    let c = dot(oc, oc) - radius * radius;
    let delta = h * h - a * c;
    if delta < 0.0 {
        return None;
    }
    let sqrtd = delta.sqrt();
    let mut root = (h - sqrtd) / a;
    if !(lo < root && root < hi) {
        root = (h + sqrtd) / a;
        if !(lo < root && root < hi) {
            return None;
        }
    }
    let p = [orig[0] + root * dir[0], orig[1] + root * dir[1], orig[2] + root * dir[2]];
    let n = [(p[0] - center[0]) / radius, (p[1] - center[1]) / radius, (p[2] - center[2]) / radius];
    Some((root, dot(dir, n) < 0.0))
}

#[test]
fn sphere_rule_against_plain_arithmetic() {
    let mut state = 101u64;
    let mut hits = 0;
    let mut far_roots = 0;
    for _ in 0..40000 {
        let center = [6.0 * lcg(&mut state) - 3.0, 6.0 * lcg(&mut state) - 3.0, 6.0 * lcg(&mut state) - 3.0];
        let radius = 0.2 + 3.0 * lcg(&mut state);
        let orig = [8.0 * lcg(&mut state) - 4.0, 8.0 * lcg(&mut state) - 4.0, 8.0 * lcg(&mut state) - 4.0];
        let dir = [2.0 * lcg(&mut state) - 1.0, 2.0 * lcg(&mut state) - 1.0, 2.0 * lcg(&mut state) - 1.0];
        let lo = if lcg(&mut state) < 0.5 { 0.001 } else { 3.0 * lcg(&mut state) };
        let hi = if lcg(&mut state) < 0.5 { f64::INFINITY } else { lo + 6.0 * lcg(&mut state) };
        let low = [center[0] - radius, center[1] - radius, center[2] - radius];
        let high = [center[0] + radius, center[1] + radius, center[2] + radius];
        let sphere = Sphere::new_static(v(center), s(radius), 0, v(low), v(high), &pad(low, high));
        let oc = [center[0] - orig[0], center[1] - orig[1], center[2] - orig[2]];
        let a = dot(dir, dir);
        let h = dot(dir, oc);
        let c = dot(oc, oc) - radius * radius;
        let delta = h * h - a * c;
        let at = |t: f64| {
            let p = [orig[0] + t * dir[0], orig[1] + t * dir[1], orig[2] + t * dir[2]];
            let n = [(p[0] - center[0]) / radius, (p[1] - center[1]) / radius, (p[2] - center[2]) / radius];
            Crossing { t: s(t), p: v(p), outward_normal: v(n), facing: s(dot(dir, n)), u: s(0.0), v: s(0.0) }
        };
        let near = (h - delta.sqrt()) / a;
        let got = sphere
            .hit(&Interval::new(s(lo), s(hi)), s(delta), &at(near), &at((h + delta.sqrt()) / a))
            .map(|rec| (f(rec.t), rec.front_face));
        let expected = reference_sphere(center, radius, orig, dir, lo, hi);
        assert_eq!(got, expected);
        if let Some((t, _)) = got {
            hits += 1;
            if t != near {
                far_roots += 1;
            }
        }
    }
    assert!(hits > 500, "{} hits", hits);
    assert!(far_roots > 50, "{} far roots", far_roots);
}

#[test]
fn quad_rule_against_plain_arithmetic() {
    let mut state = 202u64;
    let mut hits = 0;
    for _ in 0..40000 {
        let denom = if lcg(&mut state) < 0.1 { 2.0e-8 * lcg(&mut state) - 1.0e-8 } else { 2.0 * lcg(&mut state) - 1.0 };
        let t = 4.0 * lcg(&mut state) - 1.0;
        let alpha = 1.6 * lcg(&mut state) - 0.3;
        let beta = 1.6 * lcg(&mut state) - 0.3;
        let lo = 0.001;
        let hi = if lcg(&mut state) < 0.5 { f64::INFINITY } else { 3.0 * lcg(&mut state) };
        let expected = !(denom.abs() < 1e-8)
            && (lo <= t && t <= hi)
            && (0.0 <= alpha && alpha <= 1.0 && 0.0 <= beta && beta <= 1.0);
        let at = Crossing {
            t: s(t),
            p: v([alpha, beta, 0.0]),
            outward_normal: v([0.0, 0.0, 1.0]),
            facing: s(denom),
            u: s(alpha),
            v: s(beta),
        };
        let frame = raytracer::quad::QuadFrame {
            w: v([0.0, 0.0, 1.0]),
            normal: v([0.0, 0.0, 1.0]),
            d: s(0.0),
            area: s(1.0),
            far: v([1.0, 1.0, 0.0]),
            along_u: v([1.0, 0.0, 0.0]),
            along_v: v([0.0, 1.0, 0.0]),
            pads: PaddingPair {
                first: pad([0.0; 3], [1.0, 1.0, 0.0]),
                second: pad([1.0, 0.0, 0.0], [0.0, 1.0, 0.0]),
            },
        };
        let quad = Quad::new(v([0.0; 3]), v([1.0, 0.0, 0.0]), v([0.0, 1.0, 0.0]), 1, &frame);
        let got = quad.hit(&Interval::new(s(lo), s(hi)), s(denom), &at);
        assert_eq!(got.is_some(), expected);
        assert_eq!(Quad::is_interior(s(alpha), s(beta)), 0.0 <= alpha && alpha <= 1.0 && 0.0 <= beta && beta <= 1.0);
        if let Some(rec) = got {
            hits += 1;
            assert_eq!(rec.front_face, denom < 0.0);
            assert_eq!((f(rec.u), f(rec.v), f(rec.t)), (alpha, beta, t));
        }
    }
    assert!(hits > 3000);
}

#[test]
fn medium_rule_against_plain_arithmetic() {
    let mut state = 303u64;
    let mut kept = 0;
    for _ in 0..40000 {
        let lo = 2.0 * lcg(&mut state) - 1.0;
        let hi = lo + 4.0 * lcg(&mut state);
        let entry = 8.0 * lcg(&mut state) - 4.0;
        let exit = entry + 0.0001 + 4.0 * lcg(&mut state);
        let mut t1 = entry;
        let mut t2 = exit;
        if t1 < lo {
            t1 = lo;
        }
        if t2 > hi {
            t2 = hi;
        }
        let expected = if t1 >= t2 {
            None
        } else {
            if t1 < 0.0 {
                t1 = 0.0;
            }
            Some((t1, t2))
        };
        let got = ConstMedium::segment(&Interval::new(s(lo), s(hi)), s(entry), s(exit))
            .map(|seg| (f(seg.entry), f(seg.exit)));
        assert_eq!(got, expected);
        if got.is_some() {
            kept += 1;
        }
        let m = ConstMedium::new_color(0, s(-1.0), 0);
        let hit_distance = 3.0 * lcg(&mut state);
        let inside = 3.0 * lcg(&mut state);
        assert_eq!(m.hit(s(hit_distance), s(inside), s(1.0), &v([0.0; 3])).is_some(), !(hit_distance > inside));
    }
    assert!(kept > 5000);
}

#[test]
fn checker_rule_against_plain_arithmetic() {
    let white = Texture::Solid(SolidColor::new_color(v([1.0, 1.0, 1.0])));
    let black = Texture::Solid(SolidColor::new_color(v([0.0, 0.0, 0.0])));
    let checker = CheckerTexture::new(s(1.0), white, black);
    let mut state = 404u64;
    for _ in 0..40000 {
        let scale = if lcg(&mut state) < 0.9 { 20.0 } else { 1.0e10 };
        let p = [
            scale * (2.0 * lcg(&mut state) - 1.0),
            scale * (2.0 * lcg(&mut state) - 1.0),
            scale * (2.0 * lcg(&mut state) - 1.0),
        ];
        let xi = p[0].floor() as i32;
        let yi = p[1].floor() as i32;
        let zi = p[2].floor() as i32;
        let even = xi.wrapping_add(yi).wrapping_add(zi) % 2 == 0;
        let got = f(checker.value(&v(p)).solid().unwrap().x());
        assert_eq!(got == 1.0, even, "at {:?}", p);
    }
}

#[test]
fn glass_rule_against_plain_arithmetic() {
    let g = Dielectric::new(s(1.5));
    let rec = HitRecord::new(&v([0.0; 3]), &v([0.0, 1.0, 0.0]), 0, s(1.0), true);
    let mut state = 505u64;
    for _ in 0..40000 {
        let ratio_sine = 2.0 * lcg(&mut state);
        let reflectance = lcg(&mut state);
        let draw = lcg(&mut state);
        let cannot_refract = ratio_sine > 1.0;
        let mirrored = cannot_refract || reflectance > draw;
        let srec = g.scatter(&rec, s(ratio_sine), s(reflectance), s(draw), v([1.0, 0.0, 0.0]), v([0.0, 0.0, 1.0]), s(0.0));
        assert_eq!(f(srec.skip_pdf_ray.direction().x()) == 1.0, mirrored);
    }
}
