use plugin_statistics::tickrate::{finite_nonnegative, Rate};

#[test]
fn cleaning_agrees_with_floating_point() {
    let values = [
        0.0,
        -0.0,
        1.0,
        -1.0,
        66.667,
        f64::MIN_POSITIVE,
        -f64::MIN_POSITIVE,
        5e-324,
        -5e-324,
        f64::MAX,
        f64::MIN,
        f64::INFINITY,
        f64::NEG_INFINITY,
        f64::NAN,
        -f64::NAN,
    ];
    for value in values {
        let expected = if value.is_finite() && value >= 0.0 { value } else { 0.0 };
        let cleaned = finite_nonnegative(Rate {
            bits: value.to_bits(),
        });
        assert_eq!(cleaned.bits, expected.to_bits(), "{value}");
        assert_eq!(finite_nonnegative(cleaned), cleaned);
    }
}
