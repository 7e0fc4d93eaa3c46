use raytracer::hittable::HitRecord;
use raytracer::integrator::{finite_color, ray_color, weighable, Bounce};
use raytracer::material::{
    colour_at, Dielectric, DiffuseLight, Isotropic, Lambertian, Material, Materials, Metal,
    SceneError, ScatterRecord,
};
use raytracer::normal_map::{NormalMap, OriginMap};
use raytracer::onb::Onb;
use raytracer::pdf::{CosinePdf, HittablePdf, MixturePdf, Pdf, SpherePdf};
use raytracer::ray::Ray;
use raytracer::scalar::Scalar;
use raytracer::texture::{CheckerTexture, SolidColor, Texture};
use raytracer::utility::OutputParam;
use raytracer::vec3::Vec3;

fn s(x: f64) -> Scalar {
    Scalar::from_bits(x.to_bits())
}

fn f(x: Scalar) -> f64 {
    f64::from_bits(x.to_bits())
}

fn v(x: f64, y: f64, z: f64) -> Vec3 {
    Vec3::new(s(x), s(y), s(z))
}

fn w(p: Vec3) -> [f64; 3] {
    [f(p.x()), f(p.y()), f(p.z())]
}

fn hit(front: bool) -> HitRecord {
    HitRecord::new(&v(1.0, 2.0, 3.0), &v(0.0, 1.0, 0.0), 0, s(4.0), front)
}

#[test]
fn lambertian_never_passes_more_than_its_colour() {
    for albedo in [[0.65, 0.05, 0.05], [0.0, 0.0, 0.0], [1.0, 1.0, 1.0], [0.12, 0.45, 0.15]] {
        let m = Lambertian::new_color(v(albedo[0], albedo[1], albedo[2]));
        let srec = m.scatter(&hit(true), v(9.0, 9.0, 9.0));
        let a = w(srec.attenuation);
        for i in 0..3 {
            assert!(a[i] <= albedo[i]);
            assert_eq!(a[i], albedo[i]);
        }
        assert!(!srec.skip_pdf);
        match srec.pdf_ptr {
            Some(Pdf::Cosine(c)) => assert_eq!(w(c.w), [0.0, 1.0, 0.0]),
            _ => panic!("a matt surface scatters by the cosine"),
        }
    }
    let textured = Lambertian::new_tex(Texture::Image(3));
    let srec = textured.scatter(&hit(true), v(0.25, 0.5, 0.75));
    assert_eq!(w(srec.attenuation), [0.25, 0.5, 0.75]);
    assert_eq!(f(textured.scattering_pdf(s(0.2))), 0.2);
    assert_eq!(f(textured.scattering_pdf(s(-0.2))), 0.0);
}

#[test]
fn metal_caps_its_blur_and_gives_the_ray() {
    assert_eq!(f(Metal::new_color(v(0.8, 0.8, 0.8), s(0.3)).fuzz), 0.3);
    assert_eq!(f(Metal::new_color(v(0.8, 0.8, 0.8), s(1.0)).fuzz), 1.0);
    assert_eq!(f(Metal::new_color(v(0.8, 0.8, 0.8), s(7.0)).fuzz), 1.0);
    assert_eq!(f(Metal::new_tex(Texture::Noise(0), s(f64::NAN)).fuzz), 1.0);
    assert_eq!(f(Metal::new_tex(Texture::Noise(0), s(-2.0)).fuzz), -2.0);
    let m = Metal::new_color(v(0.8, 0.6, 0.2), s(0.0));
    let srec = m.scatter(&hit(true), v(0.0, 0.0, 0.0), v(0.0, 1.0, 0.0), s(0.75));
    assert!(srec.skip_pdf);
    assert!(srec.pdf_ptr.is_none());
    assert_eq!(w(srec.attenuation), [0.8, 0.6, 0.2]);
    assert_eq!(w(*srec.skip_pdf_ray.origin()), [1.0, 2.0, 3.0]);
    assert_eq!(w(*srec.skip_pdf_ray.direction()), [0.0, 1.0, 0.0]);
    assert_eq!(f(srec.skip_pdf_ray.time()), 0.75);
}

#[test]
fn glass_mirrors_or_refracts() {
    let g = Dielectric::new(s(1.5));
    assert_eq!(f(g.ratio(true, s(1.0 / 1.5))), 1.0 / 1.5);
    assert_eq!(f(g.ratio(false, s(1.0 / 1.5))), 1.5);
    let reflected = v(0.0, 1.0, 0.0);
    let refracted = v(0.0, -1.0, 0.0);
    let total = g.scatter(&hit(false), s(1.2), s(0.0), s(0.9), reflected, refracted, s(0.5));
    assert_eq!(w(*total.skip_pdf_ray.direction()), [0.0, 1.0, 0.0]);
    let by_chance = g.scatter(&hit(true), s(0.5), s(0.95), s(0.9), reflected, refracted, s(0.5));
    assert_eq!(w(*by_chance.skip_pdf_ray.direction()), [0.0, 1.0, 0.0]);
    let through = g.scatter(&hit(true), s(0.5), s(0.04), s(0.9), reflected, refracted, s(0.5));
    assert_eq!(w(*through.skip_pdf_ray.direction()), [0.0, -1.0, 0.0]);
    let at_the_limit = g.scatter(&hit(true), s(1.0), s(0.9), s(0.9), reflected, refracted, s(0.5));
    assert_eq!(w(*at_the_limit.skip_pdf_ray.direction()), [0.0, -1.0, 0.0]);
    assert_eq!(w(through.attenuation), [1.0, 1.0, 1.0]);
    assert!(through.skip_pdf);
    assert_eq!(w(*through.skip_pdf_ray.origin()), [1.0, 2.0, 3.0]);
}

#[test]
fn lights_shine_from_the_front_only() {
    let l = DiffuseLight::new_color(v(6.0, 6.0, 6.0));
    assert_eq!(w(l.emitted(&hit(true), v(0.0, 0.0, 0.0))), [6.0, 6.0, 6.0]);
    assert_eq!(w(l.emitted(&hit(false), v(0.0, 0.0, 0.0))), [0.0, 0.0, 0.0]);
    let t = DiffuseLight::new_tex(Texture::Image(0));
    assert_eq!(w(t.emitted(&hit(true), v(1.0, 2.0, 3.0))), [1.0, 2.0, 3.0]);
    let as_material = Material::DiffuseLight(l);
    assert!(as_material.emits());
    assert!(!as_material.scatters());
    assert_eq!(w(as_material.emitted(&hit(true), v(0.0, 0.0, 0.0))), [6.0, 6.0, 6.0]);
    let matt = Material::Lambertian(Lambertian::new_color(v(0.5, 0.5, 0.5)));
    assert!(!matt.emits());
    assert!(matt.scatters());
    assert_eq!(w(matt.emitted(&hit(true), v(1.0, 1.0, 1.0))), [0.0, 0.0, 0.0]);
}

#[test]
fn fog_scatters_evenly() {
    let m = Isotropic::new_color(v(0.9, 0.9, 0.9));
    let srec = m.scatter(&hit(true), v(0.0, 0.0, 0.0));
    assert_eq!(w(srec.attenuation), [0.9, 0.9, 0.9]);
    assert!(matches!(srec.pdf_ptr, Some(Pdf::Sphere(_))));
    assert!(!srec.skip_pdf);
    assert_eq!(f(m.scattering_pdf()), 1.0 / (4.0 * std::f64::consts::PI));
    let t = Isotropic::new_tex(Texture::Noise(1));
    assert_eq!(w(t.scatter(&hit(true), v(0.1, 0.2, 0.3)).attenuation), [0.1, 0.2, 0.3]);
}

#[test]
fn densities_of_the_plain_distributions() {
    assert_eq!(f(SpherePdf {}.value(&v(0.0, 0.0, 1.0))), 1.0 / (4.0 * std::f64::consts::PI));
    let c = CosinePdf::new(v(0.0, 0.0, 1.0));
    assert_eq!(f(c.value(s(0.25))), 0.25);
    assert_eq!(f(c.value(s(-0.25))), 0.0);
    assert_eq!(f(c.value(s(0.0))), 0.0);
    let h = HittablePdf::new(2, v(1.0, 1.0, 1.0));
    assert_eq!(h.objects, 2);
    let m = MixturePdf::new(Pdf::Hittable(h), Pdf::Cosine(c));
    assert!(matches!(m.pick(true), Pdf::Hittable(_)));
    assert!(matches!(m.pick(false), Pdf::Cosine(_)));
    let mut lights = 0;
    let mut surface = 0;
    for _ in 0..2000 {
        match m.generate() {
            Pdf::Hittable(_) => lights += 1,
            Pdf::Cosine(_) => surface += 1,
            Pdf::Sphere(_) => panic!("not one of the two"),
        }
    }
    assert!(lights > 800 && surface > 800);
}

#[test]
fn path_steps_in_order() {
    let rec = Some(hit(true));
    let diffuse = Some(ScatterRecord::new(
        v(0.5, 0.5, 0.5),
        Some(Pdf::Cosine(CosinePdf::new(v(0.0, 1.0, 0.0)))),
        false,
        Ray::default(),
    ));
    let mirror = Some(ScatterRecord::new(
        v(0.9, 0.9, 0.9),
        None,
        true,
        Ray::new(v(1.0, 2.0, 3.0), v(0.0, 1.0, 0.0), s(0.25)),
    ));
    assert!(matches!(ray_color(0, &rec, &diffuse, 0), Bounce::Exhausted));
    assert!(matches!(ray_color(-3, &None, &None, 0), Bounce::Exhausted));
    assert!(matches!(ray_color(50, &None, &None, 0), Bounce::Background));
    assert!(matches!(ray_color(50, &rec, &None, 0), Bounce::Emitted));
    match ray_color(50, &rec, &mirror, 0) {
        Bounce::Specular { attenuation, ray, depth } => {
            assert_eq!(w(attenuation), [0.9, 0.9, 0.9]);
            assert_eq!(w(*ray.direction()), [0.0, 1.0, 0.0]);
            assert_eq!(depth, 49);
        }
        _ => panic!("a mirror gives the ray"),
    }
    match ray_color(1, &rec, &diffuse, 7) {
        Bounce::Sampled { attenuation, pdf, depth } => {
            assert_eq!(w(attenuation), [0.5, 0.5, 0.5]);
            assert_eq!(depth, 0);
            match pdf.p[0] {
                Pdf::Hittable(h) => {
                    assert_eq!(h.objects, 7);
                    assert_eq!(w(h.origin), [1.0, 2.0, 3.0]);
                }
                _ => panic!("the first half aims at the lights"),
            }
            assert!(matches!(pdf.p[1], Pdf::Cosine(_)));
        }
        _ => panic!("a matt surface is sampled"),
    }
    let d = ScatterRecord::default();
    assert!(!d.skip_pdf && d.pdf_ptr.is_none());
}

#[test]
fn degenerate_densities_are_left_out() {
    assert!(weighable(s(0.25)));
    assert!(weighable(s(5.0e-324)));
    assert!(!weighable(s(0.0)));
    assert!(!weighable(s(-0.0)));
    assert!(!weighable(s(-1.0)));
    assert!(!weighable(s(f64::INFINITY)));
    assert!(!weighable(s(f64::NAN)));
    let c = finite_color(&v(f64::NAN, f64::INFINITY, 0.5));
    assert_eq!(w(c), [0.0, 0.0, 0.5]);
    let n = finite_color(&v(-1.0, f64::NEG_INFINITY, 1.0e300));
    assert_eq!(w(n), [-1.0, 0.0, 1.0e300]);
}

#[test]
fn textures_solid_and_checked() {
    let solid = SolidColor::new_color(v(0.1, 0.2, 0.3));
    assert_eq!(w(solid.value(s(0.5), s(0.5), &v(7.0, 7.0, 7.0))), [0.1, 0.2, 0.3]);
    let white = Texture::Solid(SolidColor::new_color(v(1.0, 1.0, 1.0)));
    let black = Texture::Solid(SolidColor::new_color(v(0.0, 0.0, 0.0)));
    let checker = CheckerTexture::new(s(1.0), white, black);
    let colour = |x: f64, y: f64, z: f64| w(checker.value(&v(x, y, z)).solid().unwrap());
    assert_eq!(colour(0.5, 0.5, 0.5), [1.0, 1.0, 1.0]);
    assert_eq!(colour(1.5, 0.5, 0.5), [0.0, 0.0, 0.0]);
    assert_eq!(colour(1.5, 1.5, 0.5), [1.0, 1.0, 1.0]);
    assert_eq!(colour(-0.5, 0.5, 0.5), [0.0, 0.0, 0.0]);
    assert_eq!(colour(-0.5, -0.5, 0.5), [1.0, 1.0, 1.0]);
    assert_eq!(colour(-1.0, 0.0, 0.0), [0.0, 0.0, 0.0]);
    assert_eq!(colour(2147483647.0, 2147483647.0, 2147483647.0), [0.0, 0.0, 0.0]);
    assert!(Texture::Image(0).solid().is_none());
    assert_eq!(w(colour_at(&Texture::Noise(0), v(0.5, 0.25, 0.125))), [0.5, 0.25, 0.125]);
    assert_eq!(w(colour_at(&Texture::Solid(solid), v(0.5, 0.25, 0.125))), [0.1, 0.2, 0.3]);
}

#[test]
fn bases_and_the_map_that_changes_nothing() {
    let mut b = Onb::default();
    b.build_from_w(v(1.0, 0.0, 0.0), v(0.0, 1.0, 0.0), v(0.0, 0.0, 1.0));
    assert_eq!(w(*b.u()), [1.0, 0.0, 0.0]);
    assert_eq!(w(*b.v()), [0.0, 1.0, 0.0]);
    assert_eq!(w(*b.w()), [0.0, 0.0, 1.0]);
    assert_eq!(w(Onb::helper_axis(&v(0.95, 0.1, 0.0))), [0.0, 1.0, 0.0]);
    assert_eq!(w(Onb::helper_axis(&v(-0.95, 0.1, 0.0))), [0.0, 1.0, 0.0]);
    assert_eq!(w(Onb::helper_axis(&v(0.9, 0.1, 0.0))), [1.0, 0.0, 0.0]);
    assert_eq!(w(Onb::helper_axis(&v(0.0, 0.0, 1.0))), [1.0, 0.0, 0.0]);
    let map = OriginMap::default();
    assert_eq!(map.convert((s(0.5), s(0.5)), (s(1.0), s(1.0))), (0, 0));
    assert_eq!(w(map.modify_normal((3, 4), b)), [0.0, 0.0, 1.0]);
    let out = OutputParam { enable_edge_detect: false, savedir: "output/book0", savefile: "/201.png" };
    assert!(!out.enable_edge_detect);
    assert_eq!(out.savedir, "output/book0");
}

#[test]
fn scenes_with_a_missing_material_are_refused() {
    let mut table = Materials::new();
    assert_eq!(table.len(), 0);
    assert!(table.get(0).is_none());
    let matt = table.add(Material::Lambertian(Lambertian::new_color(v(0.5, 0.5, 0.5))));
    let glass = table.add(Material::Dielectric(Dielectric::new(s(1.5))));
    assert_eq!((matt, glass), (0, 1));
    assert_eq!(table.len(), 2);
    assert!(matches!(table.get(1), Some(Material::Dielectric(_))));
    assert!(table.get(2).is_none());
    assert_eq!(table.check(&vec![0, 1, 1, 0]), Ok(()));
    assert_eq!(table.check(&Vec::new()), Ok(()));
    assert_eq!(
        table.check(&vec![0, 1, 2, 7]),
        Err(SceneError::MissingMaterial { surface: 2, material: 2 })
    );
    assert_eq!(
        Materials::new().check(&vec![0]),
        Err(SceneError::MissingMaterial { surface: 0, material: 0 })
    );
}
