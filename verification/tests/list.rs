use raytracer::aabb::Aabb;
use raytracer::hittable::HitRecord;
use raytracer::hittable_list::HittableList;
use raytracer::interval::Interval;
use raytracer::scalar::Scalar;
use raytracer::vec3::Vec3;

fn s(x: f64) -> Scalar {
    Scalar::from_bits(x.to_bits())
}

fn f(x: Scalar) -> f64 {
    f64::from_bits(x.to_bits())
}

fn v(x: f64, y: f64, z: f64) -> Vec3 {
    Vec3::new(s(x), s(y), s(z))
}

fn at(t: f64, mat: usize) -> HitRecord {
    HitRecord::new(&v(0.0, 0.0, t), &v(0.0, 0.0, 1.0), mat, s(t), true)
}

#[test]
fn list_box_grows_with_each_surface() {
    let mut list = HittableList::default();
    assert_eq!(list.len(), 0);
    assert_eq!(f(list.bounding_box().x.min), f64::INFINITY);
    let unit = Interval::new(s(0.0), s(1.0));
    list.add(Aabb { x: unit, y: unit, z: unit });
    list.add(Aabb {
        x: Interval::new(s(-4.0), s(0.0)),
        y: Interval::new(s(0.5), s(0.75)),
        z: Interval::new(s(0.0), s(9.0)),
    });
    assert_eq!(list.len(), 2);
    let b = list.bounding_box();
    assert_eq!((f(b.x.min), f(b.x.max)), (-4.0, 1.0));
    assert_eq!((f(b.y.min), f(b.y.max)), (0.0, 1.0));
    assert_eq!((f(b.z.min), f(b.z.max)), (0.0, 9.0));
    list.clear();
    assert_eq!(list.len(), 0);
    assert_eq!(f(list.bounding_box().z.max), f64::NEG_INFINITY);
}

#[test]
fn scan_narrows_the_range_as_it_goes() {
    let mut list = HittableList::new();
    for _ in 0..4 {
        list.add(Aabb::universe());
    }
    let places = [5.0, 3.0, 4.0, 1.0];
    let asked = std::cell::RefCell::new(Vec::new());
    let probe = |i: usize, range: Interval| {
        asked.borrow_mut().push((i, f(range.min), f(range.max)));
        if range.surrounds(s(places[i])) {
            Some(at(places[i], i))
        } else {
            None
        }
    };
    let rec = list.hit(&Interval::new(s(0.001), s(f64::INFINITY)), &probe).unwrap();
    assert_eq!(f(rec.t), 1.0);
    assert_eq!(rec.mat, 3);
    assert_eq!(
        *asked.borrow(),
        vec![(0, 0.001, f64::INFINITY), (1, 0.001, 5.0), (2, 0.001, 3.0), (3, 0.001, 3.0)]
    );
    let none = list.hit(&Interval::new(s(0.001), s(0.5)), &probe);
    assert!(none.is_none());
}

#[test]
fn scan_of_nothing_finds_nothing() {
    let list = HittableList::new();
    let probe = |_i: usize, _range: Interval| -> Option<HitRecord> { panic!("nothing to probe") };
    assert!(list.hit(&Interval::universe(), &probe).is_none());
}

#[test]
fn random_pick_stays_inside_the_list() {
    let mut list = HittableList::new();
    assert!(list.random().is_none());
    for _ in 0..5 {
        list.add(Aabb::universe());
    }
    let mut seen = [false; 5];
    for _ in 0..400 {
        let i = list.random().unwrap();
        assert!(i < 5);
        seen[i] = true;
    }
    assert!(seen.iter().all(|&b| b));
}
