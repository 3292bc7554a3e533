use temperature_tracker::binary64::{fold_extreme, Binary64, LARGEST, SMALLEST};

fn value(x: f64) -> Binary64 {
    Binary64 { bits: x.to_bits() }
}

fn samples() -> Vec<f64> {
    vec![
        f64::NEG_INFINITY,
        f64::MIN,
        -273.15,
        -40.0,
        -1.0e-300,
        -0.0,
        0.0,
        5.0e-324,
        0.1,
        21.5,
        21.500000000000004,
        10800.0,
        f64::MAX,
        f64::INFINITY,
        f64::NAN,
        -f64::NAN,
    ]
}

#[test]
fn limits_are_the_finite_ones() {
    assert_eq!(LARGEST, f64::MAX.to_bits());
    assert_eq!(SMALLEST, f64::MIN.to_bits());
}

#[test]
fn comparison_is_that_of_doubles() {
    for a in samples() {
        assert_eq!(value(a).number(), !a.is_nan());
        for b in samples() {
            assert_eq!(value(a).is_less(value(b)), a < b);
        }
    }
}

#[test]
fn max_and_min_are_those_of_doubles() {
    for a in samples() {
        for b in samples() {
            let max = f64::from_bits(value(a).max(value(b)).bits);
            let min = f64::from_bits(value(a).min(value(b)).bits);
            if a.is_nan() && b.is_nan() {
                assert!(max.is_nan());
                assert!(min.is_nan());
            } else {
                assert_eq!(max, a.max(b));
                assert_eq!(min, a.min(b));
            }
        }
    }
}

#[test]
fn folding_starts_at_the_finite_limits() {
    assert_eq!(fold_extreme(&vec![], true), value(f64::MIN));
    assert_eq!(fold_extreme(&vec![], false), value(f64::MAX));
    assert_eq!(fold_extreme(&vec![value(f64::NAN)], true), value(f64::MIN));
    assert_eq!(fold_extreme(&vec![value(f64::NEG_INFINITY)], true), value(f64::MIN));
    assert_eq!(fold_extreme(&vec![value(f64::INFINITY)], true), value(f64::INFINITY));
}

#[test]
fn folding_finds_the_extremes() {
    let values: Vec<Binary64> = [3.5, -7.25, 12.0, f64::NAN, 11.9].iter().map(|x| value(*x)).collect();
    assert_eq!(fold_extreme(&values, true), value(12.0));
    assert_eq!(fold_extreme(&values, false), value(-7.25));
}
