use rolling_stats::domain::sample::Sample;

fn sample_of(value: f64) -> Sample {
    Sample::from_bits(value.to_bits())
}

fn table_of_values() -> Vec<f64> {
    vec![
        f64::NEG_INFINITY,
        f64::MIN,
        -1.0e300,
        -2.5,
        -1.0,
        -f64::MIN_POSITIVE,
        -5e-324,
        -0.0,
        0.0,
        5e-324,
        f64::MIN_POSITIVE,
        0.1,
        1.0,
        1.0000000000000002,
        5.5,
        9.166666666666666,
        1.0e300,
        f64::MAX,
        f64::INFINITY,
        f64::NAN,
        -f64::NAN,
        f64::from_bits(0x7FF0_0000_0000_0001),
        f64::from_bits(0xFFFF_FFFF_FFFF_FFFF),
    ]
}

#[test]
fn bits_round_trip() {
    for value in table_of_values() {
        let sample = sample_of(value);
        assert_eq!(sample.to_bits(), value.to_bits());
        assert_eq!(sample.bits, value.to_bits());
    }
    assert_eq!(Sample::from_bits(7).to_bits(), 7);
}

#[test]
fn order_is_that_of_the_numbers() {
    let values = table_of_values();
    for a in &values {
        for b in &values {
            let x = sample_of(*a);
            let y = sample_of(*b);
            assert_eq!(x.greater_than(&y), a > b, "{a} > {b}");
            assert_eq!(x.less_than(&y), a < b, "{a} < {b}");
            assert_eq!(x.equal_to(&y), a == b, "{a} == {b}");
        }
    }
}

#[test]
fn not_a_number_is_told_apart() {
    for value in table_of_values() {
        assert_eq!(sample_of(value).is_not_a_number(), value.is_nan());
    }
}

#[test]
fn the_two_zeros_are_equal() {
    let plus = sample_of(0.0);
    let minus = sample_of(-0.0);
    assert!(plus.equal_to(&minus));
    assert!(!plus.greater_than(&minus));
    assert!(!plus.less_than(&minus));
    assert_ne!(plus, minus);
}

#[test]
fn lowest_and_highest_are_the_finite_extremes() {
    assert_eq!(Sample::lowest().to_bits(), f64::MIN.to_bits());
    assert_eq!(Sample::highest().to_bits(), f64::MAX.to_bits());
    assert!(sample_of(f64::NEG_INFINITY).less_than(&Sample::lowest()));
    assert!(sample_of(f64::INFINITY).greater_than(&Sample::highest()));
}
