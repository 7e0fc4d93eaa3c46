use raytracer::interval::Interval;
use raytracer::scalar::Scalar;

fn s(x: f64) -> Scalar {
    Scalar::from_bits(x.to_bits())
}

fn f(x: Scalar) -> f64 {
    f64::from_bits(x.to_bits())
}

#[test]
fn order_follows_the_numbers() {
    let xs = [
        f64::NEG_INFINITY,
        -1.0e300,
        -2.5,
        -1.0,
        -1.0e-300,
        -0.0,
        0.0,
        5.0e-324,
        1.0e-8,
        0.5,
        1.0,
        2.0,
        1.0e300,
        f64::INFINITY,
    ];
    for &a in xs.iter() {
        for &b in xs.iter() {
            assert_eq!(s(a).lt(s(b)), a < b, "{} < {}", a, b);
            assert_eq!(s(a).le(s(b)), a <= b, "{} <= {}", a, b);
            assert_eq!(s(a).gt(s(b)), a > b);
            assert_eq!(s(a).ge(s(b)), a >= b);
            assert_eq!(s(a).equals(s(b)), a == b);
            assert!(f(s(a).min(s(b))) == a.min(b));
            assert!(f(s(a).max(s(b))) == a.max(b));
        }
    }
}

#[test]
fn not_a_number_compares_with_nothing() {
    let nan = s(f64::NAN);
    assert!(nan.is_nan());
    assert!(!nan.lt(s(1.0)));
    assert!(!s(1.0).lt(nan));
    assert!(!nan.equals(nan));
    assert_eq!(f(nan.min(s(3.0))), 3.0);
    assert_eq!(f(s(3.0).max(nan)), 3.0);
    assert!(!s(1.0).is_nan());
    assert!(!s(f64::INFINITY).is_nan());
}

#[test]
fn sign_changes_are_exact() {
    for &x in [0.0, 1.5, -2.25, 1.0e-310, f64::INFINITY].iter() {
        assert_eq!(f(s(x).neg()).to_bits(), (-x).to_bits());
        assert_eq!(f(s(x).abs()).to_bits(), x.abs().to_bits());
    }
}

#[test]
fn interval_contains_surrounds_clamp() {
    let iv = Interval::new(s(0.0), s(0.999));
    assert!(iv.contains(s(0.0)));
    assert!(iv.contains(s(0.999)));
    assert!(!iv.surrounds(s(0.0)));
    assert!(iv.surrounds(s(0.5)));
    assert_eq!(f(iv.clamp(s(-3.0))), 0.0);
    assert_eq!(f(iv.clamp(s(7.0))), 0.999);
    assert_eq!(f(iv.clamp(s(0.25))), 0.25);
    assert!(f(iv.clamp(s(f64::NAN))).is_nan());
}

fn lcg(state: &mut u64) -> u64 {
    *state = state.wrapping_mul(6364136223846793005).wrapping_add(1442695040888963407);
    *state
}

#[test]
fn cut_to_i32_as_the_machine_does() {
    let fixed = [
        0.0,
        -0.0,
        0.5,
        -0.5,
        0.999,
        1.0,
        -1.0,
        1.5,
        -1.5,
        255.744,
        2147483647.0,
        2147483648.0,
        -2147483648.0,
        -2147483649.0,
        2147483646.5,
        -2147483648.5,
        1.0e10,
        -1.0e10,
        1.0e300,
        5.0e-324,
        f64::INFINITY,
        f64::NEG_INFINITY,
        f64::NAN,
        4503599627370496.0,
        9007199254740993.0,
    ];
    for &x in fixed.iter() {
        assert_eq!(s(x).to_i32(), x as i32, "to_i32 of {}", x);
        assert_eq!(s(x).to_u32(), x as u32, "to_u32 of {}", x);
        assert_eq!(s(x).floor_to_i32(), x.floor() as i32, "floor of {}", x);
        assert_eq!(s(x).scaled_to_i32(8), (256.0 * x) as i32, "256 * {}", x);
    }
    let mut state = 7u64;
    for _ in 0..200000 {
        let bits = lcg(&mut state) ^ (lcg(&mut state) >> 13);
        let x = f64::from_bits(bits);
        assert_eq!(s(x).to_i32(), x as i32, "to_i32 of {:e}", x);
        assert_eq!(s(x).to_u32(), x as u32, "to_u32 of {:e}", x);
        assert_eq!(s(x).floor_to_i32(), x.floor() as i32, "floor of {:e}", x);
    }
    for _ in 0..200000 {
        let whole = (lcg(&mut state) >> 30) as i64 - (1i64 << 33);
        let part = (lcg(&mut state) >> 11) as f64 / (1u64 << 53) as f64;
        let x = whole as f64 + part;
        assert_eq!(s(x).to_i32(), x as i32, "to_i32 of {}", x);
        assert_eq!(s(x).to_u32(), x as u32, "to_u32 of {}", x);
        assert_eq!(s(x).floor_to_i32(), x.floor() as i32, "floor of {}", x);
        let y = part * 1.25 - 0.125;
        assert_eq!(s(y).scaled_to_i32(8), (256.0 * y) as i32, "256 * {}", y);
    }
}

#[test]
fn named_numbers_have_their_patterns() {
    assert_eq!(f(Scalar::zero()), 0.0);
    assert_eq!(f(Scalar::one()), 1.0);
    assert_eq!(f(Scalar::infinity()), f64::INFINITY);
    assert_eq!(f(Scalar::neg_infinity()), f64::NEG_INFINITY);
    assert_eq!(f(Scalar::positive(0.25f64.to_bits())), 0.25);
    assert!(Scalar::one().is_finite());
    assert!(!Scalar::infinity().is_finite());
    assert_eq!(s(-2.0).order_code(), -(2.0f64.to_bits() as i64));
    assert_eq!(s(2.0).order_code(), 2.0f64.to_bits() as i64);
}

#[test]
fn interval_hull_empty_universe_pad() {
    let a = Interval::new(s(1.0), s(2.0));
    let b = Interval::new(s(-3.0), s(1.5));
    let h = Interval::new_interval(&a, &b);
    assert_eq!((f(h.min), f(h.max)), (-3.0, 2.0));
    let e = Interval::empty();
    assert!(!e.contains(s(0.0)));
    let he = Interval::new_interval(&e, &a);
    assert_eq!((f(he.min), f(he.max)), (1.0, 2.0));
    let u = Interval::universe();
    assert!(u.contains(s(1.0e308)));
    assert!(u.contains(s(f64::NEG_INFINITY)));
    let d = Interval::default();
    assert_eq!((f(d.min), f(d.max)), (f64::NEG_INFINITY, f64::INFINITY));
    let c = Interval::copy(&a);
    assert_eq!((f(c.min), f(c.max)), (1.0, 2.0));
    let flat = Interval::new(s(5.0), s(5.0));
    let wide = Interval::new(s(4.99995), s(5.00005));
    let kept = a.pad(s(1.0), &wide);
    assert_eq!((f(kept.min), f(kept.max)), (1.0, 2.0));
    let padded = flat.pad(s(0.0), &wide);
    assert_eq!((f(padded.min), f(padded.max)), (4.99995, 5.00005));
    let at_limit = flat.pad(s(0.0001), &wide);
    assert_eq!((f(at_limit.min), f(at_limit.max)), (5.0, 5.0));
}
