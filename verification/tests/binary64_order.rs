use proximity_index::binary64::{Binary64, INFINITY_MAGNITUDE, SIGN_BIT};

fn carried(x: f64) -> Binary64 {
    Binary64 { bits: x.to_bits() }
}

fn samples() -> Vec<f64> {
    vec![
        0.0,
        -0.0,
        5e-324,
        -5e-324,
        f64::MIN_POSITIVE,
        -f64::MIN_POSITIVE,
        1e-300,
        -1e-300,
        0.1 + 0.2,
        0.3,
        1.0,
        -1.0,
        1.0 + f64::EPSILON,
        45.5017,
        -73.5673,
        49.999_999_999,
        50.0,
        50.000_000_001,
        95_000.0,
        6_371_000.0,
        f64::MAX,
        f64::MIN,
        f64::INFINITY,
        f64::NEG_INFINITY,
        f64::NAN,
        -f64::NAN,
        f64::from_bits(0x7ff0_0000_0000_0001),
        f64::from_bits(0xffff_ffff_ffff_ffff),
    ]
}

#[test]
fn le_agrees_with_the_hardware_on_every_pair_of_samples() {
    let values = samples();
    for a in values.iter() {
        for b in values.iter() {
            assert_eq!(carried(*a).le(carried(*b)), *a <= *b, "{:?} <= {:?}", a, b);
        }
    }
}

#[test]
fn is_nan_agrees_with_the_hardware_on_every_sample() {
    for a in samples().iter() {
        assert_eq!(carried(*a).is_nan(), a.is_nan(), "{:?}", a);
    }
}

#[test]
fn the_two_zeros_are_equal() {
    let plus = Binary64 { bits: 0 };
    let minus = Binary64 { bits: SIGN_BIT };
    assert!(plus.le(minus));
    assert!(minus.le(plus));
}

#[test]
fn nothing_compares_with_a_nan() {
    let nan = Binary64 { bits: INFINITY_MAGNITUDE + 1 };
    let one = carried(1.0);
    assert!(nan.is_nan());
    assert!(!nan.le(one));
    assert!(!one.le(nan));
    assert!(!nan.le(nan));
}

#[test]
fn infinity_is_a_number_and_the_largest() {
    let infinity = Binary64 { bits: INFINITY_MAGNITUDE };
    assert!(!infinity.is_nan());
    assert!(carried(f64::MAX).le(infinity));
    assert!(!infinity.le(carried(f64::MAX)));
    assert!(infinity.le(infinity));
}

#[test]
fn negative_numbers_order_against_their_patterns() {
    let minus_two = carried(-2.0);
    let minus_one = carried(-1.0);
    assert!(minus_two.bits > minus_one.bits);
    assert!(minus_two.le(minus_one));
    assert!(!minus_one.le(minus_two));
}

#[test]
fn le_is_exact_at_the_boundary() {
    let radius = carried(50.0);
    assert!(carried(50.0).le(radius));
    assert!(carried(f64::from_bits(50.0f64.to_bits() - 1)).le(radius));
    assert!(!carried(f64::from_bits(50.0f64.to_bits() + 1)).le(radius));
}

#[test]
fn le_agrees_with_the_hardware_on_many_patterns() {
    let mut state: u64 = 0x9e37_79b9_7f4a_7c15;
    let mut patterns: Vec<u64> = Vec::new();
    for _ in 0..400 {
        state ^= state << 13;
        state ^= state >> 7;
        state ^= state << 17;
        patterns.push(state);
        patterns.push(state >> 12);
        patterns.push((state >> 12) | SIGN_BIT);
    }
    for a in patterns.iter() {
        for b in patterns.iter() {
            let (x, y) = (f64::from_bits(*a), f64::from_bits(*b));
            assert_eq!(Binary64 { bits: *a }.le(Binary64 { bits: *b }), x <= y, "{:#x} <= {:#x}", a, b);
        }
    }
}
