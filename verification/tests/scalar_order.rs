use raytracer::scalar::Scalar;

fn s(x: f32) -> Scalar {
    Scalar::from_bits(x.to_bits())
}

fn samples() -> Vec<f32> {
    vec![
        0.0,
        -0.0,
        1.0,
        -1.0,
        0.1,
        -0.1,
        1e-10,
        -1e-10,
        1.0e-45,
        -1.0e-45,
        f32::MIN_POSITIVE,
        f32::MAX,
        f32::MIN,
        f32::INFINITY,
        f32::NEG_INFINITY,
        f32::NAN,
        -f32::NAN,
        2.5,
        2.5000002,
        -2.5,
        123456.79,
    ]
}

#[test]
fn lt_agrees_with_hardware() {
    for a in samples() {
        for b in samples() {
            assert_eq!(s(a).lt(s(b)), a < b, "{} < {}", a, b);
        }
    }
}

#[test]
fn gt_agrees_with_hardware() {
    for a in samples() {
        for b in samples() {
            assert_eq!(s(a).gt(s(b)), a > b, "{} > {}", a, b);
        }
    }
}

#[test]
fn ge_agrees_with_hardware() {
    for a in samples() {
        for b in samples() {
            assert_eq!(s(a).ge(s(b)), a >= b, "{} >= {}", a, b);
        }
    }
}

#[test]
fn le_agrees_with_hardware() {
    for a in samples() {
        for b in samples() {
            assert_eq!(s(a).le(s(b)), a <= b, "{} <= {}", a, b);
        }
    }
}

#[test]
fn same_agrees_with_hardware() {
    for a in samples() {
        for b in samples() {
            assert_eq!(s(a).same(s(b)), a == b, "{} == {}", a, b);
        }
    }
}

#[test]
fn is_nan_agrees_with_hardware() {
    for a in samples() {
        assert_eq!(s(a).is_nan(), a.is_nan(), "{}", a);
    }
}

#[test]
fn constants_have_their_patterns() {
    assert_eq!(Scalar::zero().to_bits(), 0.0f32.to_bits());
    assert_eq!(Scalar::infinity().to_bits(), f32::INFINITY.to_bits());
    assert_eq!(raytracer::scalar::SIGN_BIT, (-0.0f32).to_bits());
    assert_eq!(raytracer::shapes::FACING_LIMIT_BITS, (-1e-10f32).to_bits());
    assert_eq!(raytracer::shapes::AXIS_LIMIT_BITS, 1e-10f32.to_bits());
}

#[test]
fn zeros_are_the_same_number_but_not_the_same_pattern() {
    assert!(s(0.0).same(s(-0.0)));
    assert_ne!(s(0.0), s(-0.0));
    assert!(!s(f32::NAN).same(s(f32::NAN)));
}

#[test]
fn max_agrees_with_hardware() {
    for a in samples() {
        for b in samples() {
            if a == b {
                continue;
            }
            let want = a.max(b);
            let got = f32::from_bits(s(a).max(s(b)).to_bits());
            if want.is_nan() {
                assert!(got.is_nan(), "max({}, {})", a, b);
            } else {
                assert_eq!(got.to_bits(), want.to_bits(), "max({}, {})", a, b);
            }
        }
    }
}

#[test]
fn max_with_zero_clamps_a_diffuse_term() {
    assert_eq!(s(0.0).max(s(-0.25)), s(0.0));
    assert_eq!(s(0.0).max(s(0.25)), s(0.25));
    assert_eq!(s(0.0).max(s(f32::NAN)), s(0.0));
    assert_eq!(s(0.0).max(s(-0.0)), s(0.0));
}
