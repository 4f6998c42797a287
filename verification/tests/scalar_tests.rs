use raycore::light::{DIRECT_POWER_BITS, INDIRECT_POWER_BITS, SOURCE_Y_BITS, SOURCE_Z_BITS};
use raycore::scalar::{Scalar, Vec3, INFINITY_BITS, SIGN_BIT, TOLERANCE_BITS};
use raycore::world::CAMERA_Z_BITS;

fn samples() -> Vec<f32> {
    vec![
        0.0,
        -0.0,
        1.0,
        -1.0,
        1e-4,
        -1e-4,
        0.5,
        -0.5,
        14.0,
        3.5e10,
        -3.5e10,
        f32::MIN_POSITIVE,
        -f32::MIN_POSITIVE,
        f32::from_bits(1),
        f32::from_bits(SIGN_BIT | 1),
        f32::MAX,
        f32::MIN,
        f32::INFINITY,
        f32::NEG_INFINITY,
        f32::NAN,
        f32::from_bits(0xFFC0_0001),
        f32::from_bits(0x7F80_0001),
    ]
}

fn s(x: f32) -> Scalar {
    Scalar::from_bits(x.to_bits())
}

#[test]
fn comparisons_agree_with_binary32() {
    for a in samples() {
        for b in samples() {
            assert_eq!(s(a).lt(s(b)), a < b, "{a} < {b}");
            assert_eq!(s(a).le(s(b)), a <= b, "{a} <= {b}");
            assert_eq!(s(a).gt(s(b)), a > b, "{a} > {b}");
            assert_eq!(s(a).ge(s(b)), a >= b, "{a} >= {b}");
        }
    }
}

#[test]
fn is_nan_agrees_with_binary32() {
    for a in samples() {
        assert_eq!(s(a).is_nan(), a.is_nan(), "{a}");
    }
    assert!(!Scalar::from_bits(INFINITY_BITS).is_nan());
    assert!(Scalar::from_bits(INFINITY_BITS + 1).is_nan());
    assert!(Scalar::from_bits(u32::MAX).is_nan());
}

#[test]
fn abs_agrees_with_binary32() {
    for a in samples() {
        assert_eq!(s(a).abs().to_bits(), a.abs().to_bits(), "{a}");
    }
}

#[test]
fn zeros_are_numerically_equal_but_distinct_patterns() {
    let plus = s(0.0);
    let minus = s(-0.0);
    assert!(plus.le(minus) && minus.le(plus));
    assert!(!plus.lt(minus) && !minus.lt(plus));
    assert_ne!(plus, minus);
    assert_eq!(minus.to_bits(), SIGN_BIT);
    assert_eq!(Scalar::zero(), plus);
}

#[test]
fn nan_is_unordered() {
    let nan = s(f32::NAN);
    assert!(!nan.lt(nan) && !nan.le(nan) && !nan.gt(nan) && !nan.ge(nan));
    assert!(!nan.lt(s(1.0)) && !s(1.0).lt(nan));
    assert_eq!(nan, nan);
}

#[test]
fn less_is_a_strict_order_on_samples() {
    let values: Vec<f32> = samples().into_iter().filter(|x| !x.is_nan()).collect();
    for &a in &values {
        assert!(!s(a).lt(s(a)));
        for &b in &values {
            assert!(s(a).lt(s(b)) || s(b).lt(s(a)) || a == b);
            assert_eq!(s(a).le(s(b)), !s(b).lt(s(a)));
            for &c in &values {
                if s(a).lt(s(b)) && s(b).lt(s(c)) {
                    assert!(s(a).lt(s(c)));
                }
            }
        }
    }
}

#[test]
fn constants_are_the_patterns_of_their_values() {
    assert_eq!(TOLERANCE_BITS, 1e-4f32.to_bits());
    assert_eq!(Scalar::tolerance().to_bits(), 1e-4f32.to_bits());
    assert_eq!(INFINITY_BITS, f32::INFINITY.to_bits());
    assert_eq!(SIGN_BIT, (-0.0f32).to_bits());
    assert_eq!(SOURCE_Y_BITS, (-0.5f32).to_bits());
    assert_eq!(SOURCE_Z_BITS, (-0.7f32).to_bits());
    assert_eq!(DIRECT_POWER_BITS, 14f32.to_bits());
    assert_eq!(INDIRECT_POWER_BITS, 0.5f32.to_bits());
    assert_eq!(CAMERA_Z_BITS, (-3f32).to_bits());
}

#[test]
fn vec3_constructors() {
    assert_eq!(Vec3::zero(), Vec3::from_bits(0, 0, 0));
    let v = Vec3::new(s(1.0), s(2.0), s(3.0));
    assert_eq!(v, Vec3::from_bits(1f32.to_bits(), 2f32.to_bits(), 3f32.to_bits()));
    assert_eq!(f32::from_bits(v.y.to_bits()), 2.0);
}
