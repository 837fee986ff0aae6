use pore_dft::binary64::{cap, exceeds, is_nan, is_positive, is_zero, INFINITY, ZERO};

fn bits(x: f64) -> u64 {
    x.to_bits()
}

#[test]
fn exceeds_orders_as_the_numbers_do() {
    let samples = [
        f64::NEG_INFINITY,
        -1.0e300,
        -2.5,
        -1.0,
        -f64::MIN_POSITIVE,
        -5.0e-324,
        -0.0,
        0.0,
        5.0e-324,
        f64::MIN_POSITIVE,
        0.1,
        1.0,
        49.999999999999993,
        50.0,
        50.00000000000001,
        1.0e300,
        f64::MAX,
        f64::INFINITY,
        f64::NAN,
        -f64::NAN,
    ];
    for &a in samples.iter() {
        for &b in samples.iter() {
            assert_eq!(exceeds(bits(a), bits(b)), a > b, "{} > {}", a, b);
        }
    }
}

#[test]
fn zero_infinity_and_nan_are_told_apart() {
    assert_eq!(ZERO, bits(0.0));
    assert_eq!(INFINITY, bits(f64::INFINITY));
    assert!(is_zero(bits(0.0)));
    assert!(is_zero(bits(-0.0)));
    assert!(!is_zero(bits(5.0e-324)));
    assert!(is_nan(bits(f64::NAN)));
    assert!(is_nan(bits(-f64::NAN)));
    assert!(!is_nan(bits(f64::INFINITY)));
    assert!(!is_nan(bits(f64::NEG_INFINITY)));
    assert!(is_positive(bits(5.0e-324)));
    assert!(is_positive(bits(f64::INFINITY)));
    assert!(!is_positive(bits(0.0)));
    assert!(!is_positive(bits(-0.0)));
    assert!(!is_positive(bits(-3.0)));
    assert!(!is_positive(bits(f64::NAN)));
}

#[test]
fn cap_brings_down_what_exceeds() {
    assert_eq!(cap(bits(51.0), bits(50.0)), bits(50.0));
    assert_eq!(cap(bits(50.0), bits(50.0)), bits(50.0));
    assert_eq!(cap(bits(-3.0), bits(50.0)), bits(-3.0));
    assert_eq!(cap(bits(f64::INFINITY), bits(50.0)), bits(50.0));
    assert_eq!(cap(bits(f64::NEG_INFINITY), bits(50.0)), bits(f64::NEG_INFINITY));
    assert_eq!(cap(bits(f64::NAN), bits(50.0)), bits(f64::NAN));
    assert_eq!(cap(bits(0.0), bits(-0.0)), bits(0.0));
}
