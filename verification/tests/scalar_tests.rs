use raytracer::scalar::Scalar;

fn s(x: f64) -> Scalar {
    Scalar::from_bits(x.to_bits())
}

fn samples() -> Vec<f64> {
    vec![
        0.0,
        -0.0,
        1.0,
        -1.0,
        0.5,
        -0.5,
        0.001,
        0.999,
        0.9999999,
        1e-8,
        -1e-8,
        1e-160,
        5e-324,
        -5e-324,
        2.2250738585072014e-308,
        1.5,
        2.0,
        255.744,
        255.999,
        256.0,
        1000.25,
        -1000.75,
        2147483646.5,
        2147483647.0,
        2147483648.0,
        -2147483648.0,
        -2147483649.0,
        4294967296.5,
        1e15,
        -1e15,
        1e300,
        -1e300,
        f64::MAX,
        f64::MIN,
        f64::INFINITY,
        f64::NEG_INFINITY,
        f64::NAN,
        -f64::NAN,
    ]
}

#[test]
fn comparisons_agree_with_hardware() {
    for a in samples() {
        for b in samples() {
            assert_eq!(s(a).lt(&s(b)), a < b, "{} < {}", a, b);
            assert_eq!(s(a).le(&s(b)), a <= b, "{} <= {}", a, b);
            assert_eq!(s(a).gt(&s(b)), a > b, "{} > {}", a, b);
            assert_eq!(s(a).ge(&s(b)), a >= b, "{} >= {}", a, b);
        }
    }
}

#[test]
fn zeros_compare_equal() {
    assert!(s(0.0).le(&s(-0.0)));
    assert!(s(-0.0).le(&s(0.0)));
    assert!(!s(-0.0).lt(&s(0.0)));
    assert!(!s(0.0).lt(&s(-0.0)));
}

#[test]
fn nan_is_recognised_and_unordered() {
    for a in samples() {
        assert_eq!(s(a).is_nan(), a.is_nan());
        assert!(!s(a).lt(&s(f64::NAN)));
        assert!(!s(f64::NAN).le(&s(a)));
    }
}

#[test]
fn negation_and_absolute_value_are_exact() {
    for a in samples() {
        assert_eq!(s(a).neg().to_bits(), (-a).to_bits());
        assert_eq!(s(a).abs().to_bits(), a.abs().to_bits());
        assert_eq!(s(a).is_sign_negative(), a.is_sign_negative());
        assert_eq!(s(a).neg().neg().to_bits(), a.to_bits());
    }
}

#[test]
fn named_numbers_have_their_patterns() {
    assert_eq!(Scalar::zero().to_bits(), 0.0f64.to_bits());
    assert_eq!(Scalar::one().to_bits(), 1.0f64.to_bits());
    assert_eq!(Scalar::infinity().to_bits(), f64::INFINITY.to_bits());
    assert_eq!(Scalar::neg_infinity().to_bits(), f64::NEG_INFINITY.to_bits());
}

#[test]
fn truncation_agrees_with_the_cast() {
    for a in samples() {
        assert_eq!(s(a).to_i32(), a as i32, "{}", a);
    }
    assert_eq!(s(2.9).to_i32(), 2);
    assert_eq!(s(-2.9).to_i32(), -2);
    assert_eq!(s(0.999).to_i32(), 0);
    assert_eq!(s(f64::NAN).to_i32(), 0);
    assert_eq!(s(1e10).to_i32(), i32::MAX);
    assert_eq!(s(-1e10).to_i32(), i32::MIN);
}

#[test]
fn scaled_truncation_agrees_with_multiplying_first() {
    for a in samples() {
        assert_eq!(s(a).truncate_scaled(8), (256.0 * a) as i32, "{}", a);
        assert_eq!(s(a).truncate_scaled(1), (2.0 * a) as i32, "{}", a);
        assert_eq!(s(a).truncate_scaled(31), (2147483648.0 * a) as i32, "{}", a);
    }
    assert_eq!(s(0.999).truncate_scaled(8), 255);
    assert_eq!(s(0.5).truncate_scaled(8), 128);
    assert_eq!(s(5e-324).truncate_scaled(1074), 1);
    assert_eq!(s(5e-324).truncate_scaled(1073), 0);
    assert_eq!(s(-5e-324).truncate_scaled(1075), -2);
    assert_eq!(s(1.0).truncate_scaled(u32::MAX), i32::MAX);
}

#[test]
fn truncation_on_a_fine_grid() {
    let mut x = -3.0f64;
    while x < 3.0 {
        assert_eq!(s(x).truncate_scaled(8), (256.0 * x) as i32, "{}", x);
        assert_eq!(s(x).to_i32(), x as i32, "{}", x);
        x += 0.00390625 / 3.0;
    }
}
