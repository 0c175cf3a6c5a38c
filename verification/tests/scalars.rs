use gothspace::scalar::{Scalar, INFINITY_KEY, LOWEST_KEY, ONE_KEY};

fn scalar(value: f32) -> Scalar {
    Scalar::from_bits(value.to_bits())
}

const SAMPLES: [f32; 19] = [
    f32::NEG_INFINITY,
    f32::MIN,
    -1000.0,
    -7.0,
    -1.0,
    -0.5,
    -f32::MIN_POSITIVE,
    -1.0e-45,
    -0.0,
    0.0,
    1.0e-45,
    f32::MIN_POSITIVE,
    0.5,
    1.0,
    3.0,
    5.0,
    7.0,
    f32::MAX,
    f32::INFINITY,
];

#[test]
fn keys_of_known_numbers() {
    assert_eq!(scalar(0.0).key(), 0);
    assert_eq!(scalar(-0.0).key(), 0);
    assert_eq!(scalar(1.0).key(), ONE_KEY);
    assert_eq!(scalar(1.0).key(), 0x3f80_0000);
    assert_eq!(scalar(-1.0).key(), -0x3f80_0000);
    assert_eq!(scalar(2.0).key(), 0x4000_0000);
    assert_eq!(scalar(f32::INFINITY).key(), INFINITY_KEY);
    assert_eq!(scalar(f32::NEG_INFINITY).key(), LOWEST_KEY);
    assert_eq!(Scalar::from_bits(1).key(), 1);
    assert_eq!(Scalar::from_bits(0x8000_0001).key(), -1);
}

#[test]
fn what_is_no_number_stands_with_negative_infinity() {
    assert_eq!(scalar(f32::NAN).key(), LOWEST_KEY);
    assert_eq!(Scalar::from_bits(0x7f80_0001).key(), LOWEST_KEY);
    assert_eq!(Scalar::from_bits(0xffff_ffff).key(), LOWEST_KEY);
    assert_eq!(Scalar::from_bits(0x7fff_ffff).key(), LOWEST_KEY);
}

#[test]
fn named_scalars() {
    assert_eq!(Scalar::zero(), scalar(0.0));
    assert_eq!(Scalar::one(), scalar(1.0));
    assert_eq!(Scalar::lowest(), scalar(f32::NEG_INFINITY));
}

#[test]
fn keys_order_as_the_numbers_do() {
    for a in SAMPLES {
        for b in SAMPLES {
            assert_eq!(scalar(a).is_below(&scalar(b)), a < b, "{} < {}", a, b);
            assert_eq!(scalar(a).key() < scalar(b).key(), a < b, "{} < {}", a, b);
            assert_eq!(scalar(a) == scalar(b), a == b, "{} == {}", a, b);
        }
    }
}

#[test]
fn nothing_is_below_what_is_no_number() {
    for a in SAMPLES {
        assert!(!scalar(a).is_below(&scalar(f32::NAN)));
    }
}

#[test]
fn intervals_include_their_ends() {
    let zero = Scalar::zero();
    let one = Scalar::one();
    assert!(scalar(0.0).is_within(&zero, &one));
    assert!(scalar(1.0).is_within(&zero, &one));
    assert!(scalar(0.25).is_within(&zero, &one));
    assert!(scalar(-0.0).is_within(&zero, &one));
    assert!(!scalar(1.000_000_1).is_within(&zero, &one));
    assert!(!scalar(-1.0e-45).is_within(&zero, &one));
    assert!(!scalar(f32::NAN).is_within(&zero, &one));
}

#[test]
fn clamping_agrees_with_single_precision() {
    for a in SAMPLES {
        assert_eq!(scalar(a).clamped_to_unit(), scalar(a.clamp(0.0, 1.0)), "{}", a);
    }
    assert_eq!(scalar(0.3).clamped_to_unit(), scalar(0.3));
}

#[test]
fn clamping_what_is_no_number_gives_zero() {
    assert_eq!(scalar(f32::NAN).clamped_to_unit(), Scalar::zero());
}
