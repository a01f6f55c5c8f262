use rslox::number::{eq, ge, gt, le, lt, nan, neg, zero};

fn samples() -> Vec<f64> {
    vec![
        0.0,
        -0.0,
        1.0,
        -1.0,
        0.5,
        -0.5,
        123.456,
        -123.456,
        f64::MIN_POSITIVE,
        -f64::MIN_POSITIVE,
        5e-324,
        -5e-324,
        f64::MAX,
        f64::MIN,
        f64::INFINITY,
        f64::NEG_INFINITY,
        f64::NAN,
        -f64::NAN,
        f64::from_bits(0x7ff0_0000_0000_0001),
        f64::from_bits(0xffff_ffff_ffff_ffff),
    ]
}

#[test]
fn comparisons_agree_with_the_hardware() {
    for a in samples() {
        for b in samples() {
            let (x, y) = (a.to_bits(), b.to_bits());
            assert_eq!(eq(x, y), a == b, "{a} == {b}");
            assert_eq!(lt(x, y), a < b, "{a} < {b}");
            assert_eq!(le(x, y), a <= b, "{a} <= {b}");
            assert_eq!(gt(x, y), a > b, "{a} > {b}");
            assert_eq!(ge(x, y), a >= b, "{a} >= {b}");
        }
    }
}

#[test]
fn tests_and_negation_agree_with_the_hardware() {
    for a in samples() {
        let x = a.to_bits();
        assert_eq!(nan(x), a.is_nan());
        assert_eq!(zero(x), a == 0.0);
        assert_eq!(neg(x), (-a).to_bits());
    }
}

#[test]
fn the_two_zeros_are_equal_and_a_nan_is_not_itself() {
    assert!(eq(0.0f64.to_bits(), (-0.0f64).to_bits()));
    assert!(!lt((-0.0f64).to_bits(), 0.0f64.to_bits()));
    assert!(le((-0.0f64).to_bits(), 0.0f64.to_bits()));
    assert!(!eq(f64::NAN.to_bits(), f64::NAN.to_bits()));
    assert!(!le(f64::NAN.to_bits(), f64::NAN.to_bits()));
}

#[test]
fn negation_flips_the_sign_bit() {
    assert_eq!(neg(0), 0x8000_0000_0000_0000);
    assert_eq!(neg(0x8000_0000_0000_0000), 0);
    assert_eq!(neg(1.5f64.to_bits()), (-1.5f64).to_bits());
    assert_eq!(neg(neg(42f64.to_bits())), 42f64.to_bits());
}
